//! IEEE single and half precision numbers as bit patterns.
//!
//! The library carries a single as the `u32` of its bits. What it decides about
//! such numbers is decided here on the bits: which of two is larger, whether one
//! is finite, and how integers, doubles and halves convert to and from singles.
use vstd::prelude::*;

verus! {

// ── Order ────────────────────────────────────────────────────────────────

/// The magnitude bits: all but the sign.
pub open spec fn magnitude(b: u32) -> int {
    b as int % 0x8000_0000
}

/// Whether the pattern is a NaN.
pub open spec fn nan(b: u32) -> bool {
    magnitude(b) > 0x7f80_0000
}

/// Whether the pattern is neither an infinity nor a NaN.
pub open spec fn finite(b: u32) -> bool {
    magnitude(b) < 0x7f80_0000
}

/// A key that orders the numbers: of two patterns that are no NaN, the first is
/// less than the second exactly when its key is. The two zeros share a key.
pub open spec fn key(b: u32) -> int {
    if b < 0x8000_0000 {
        magnitude(b)
    } else {
        -magnitude(b)
    }
}

/// Whether the number `a` is greater than the number `b`; never so with a NaN.
pub open spec fn greater(a: u32, b: u32) -> bool {
    !nan(a) && !nan(b) && key(a) > key(b)
}

pub fn is_nan(b: u32) -> (r: bool)
    ensures
        r == nan(b),
{
    b % 0x8000_0000 > 0x7f80_0000
}

pub fn is_finite(b: u32) -> (r: bool)
    ensures
        r == finite(b),
{
    b % 0x8000_0000 < 0x7f80_0000
}

pub fn order_key(b: u32) -> (r: i64)
    ensures
        r == key(b),
{
    if b < 0x8000_0000 {
        b as i64
    } else {
        -((b % 0x8000_0000) as i64)
    }
}

pub fn is_greater(a: u32, b: u32) -> (r: bool)
    ensures
        r == greater(a, b),
{
    !is_nan(a) && !is_nan(b) && order_key(a) > order_key(b)
}

// ── Rounding ─────────────────────────────────────────────────────────────

/// Two to the power `n`.
pub open spec fn two(n: nat) -> nat
    decreases n,
{
    if n == 0 {
        1
    } else {
        2 * two((n - 1) as nat)
    }
}

/// The position of the highest one bit of `n`.
pub open spec fn log2(n: nat) -> nat
    decreases n,
{
    if n <= 1 {
        0
    } else {
        1 + log2(n / 2)
    }
}

/// `x / p` rounded to the nearest integer, a tie to the even one.
pub open spec fn nearest(x: int, p: int) -> int {
    let q = x / p;
    let r = x % p;
    if 2 * r > p || (2 * r == p && q % 2 == 1) {
        q + 1
    } else {
        q
    }
}

pub proof fn lemma_two_positive(n: nat)
    ensures
        two(n) >= 1,
    decreases n,
{
    if n > 0 {
        lemma_two_positive((n - 1) as nat);
    }
}

proof fn lemma_log2(n: nat, e: nat)
    requires
        two(e) <= n < two(e + 1),
    ensures
        log2(n) == e,
    decreases n,
{
    if e == 0 {
        assert(two(1) == 2 * two(0));
    } else {
        lemma_two_positive((e - 1) as nat);
        assert(two(e + 1) == 2 * two(e));
        assert(two(e) == 2 * two((e - 1) as nat));
        lemma_log2(n / 2, (e - 1) as nat);
    }
}

pub(crate) fn round_nearest(x: u64, p: u64) -> (r: u64)
    requires
        0 < p <= 0x8000_0000_0000_0000,
        x < 0x8000_0000_0000_0000,
    ensures
        r == nearest(x as int, p as int),
{
    let q: u64 = x / p;
    let m: u64 = x % p;
    assert(q <= x) by (nonlinear_arith)
        requires
            q == x / p,
            p > 0,
    ;
    if m > p - m || (m == p - m && q % 2 == 1) {
        q + 1
    } else {
        q
    }
}

// ── Conversions to singles ───────────────────────────────────────────────

/// The single nearest to the natural number `n`, a tie to the even one.
///
/// With `e` the position of the highest one bit, the exponent field is `127 + e`
/// and the significand is `n` scaled to 24 bits. A significand that rounds up to
/// 25 bits carries into the exponent.
pub open spec fn single_of_nat(n: nat) -> int {
    if n == 0 {
        0
    } else {
        let e = log2(n);
        (126 + e) * 0x80_0000 + if e <= 23 {
            n as int * two((23 - e) as nat)
        } else {
            nearest(n as int, two((e - 23) as nat) as int)
        }
    }
}

fn natural_to_single(n: u64) -> (r: u32)
    requires
        n <= 0xffff_ffff,
    ensures
        r as int == single_of_nat(n as nat),
        r < 0x8000_0000,
{
    if n == 0 {
        return 0;
    }
    let mut e: u32 = 0;
    let mut top: u64 = 1;
    while n / 2 >= top
        invariant
            1 <= n <= 0xffff_ffff,
            top == two(e as nat),
            top <= n,
            e < 32,
            e == 31 ==> top == 0x8000_0000,
            top <= 0x8000_0000,
            1 <= top,
        decreases n - top,
    {
        proof {
            lemma_below_32(e as nat);
        }
        top = top * 2;
        e = e + 1;
        assert(top == two(e as nat));
        proof {
            lemma_below_32(e as nat);
        }
    }
    proof {
        assert(two(e as nat + 1) == 2 * two(e as nat));
        lemma_log2(n as nat, e as nat);
        lemma_below_32(e as nat);
    }
    if e <= 23 {
        let mut scaled: u64 = n;
        let mut k: u32 = e;
        proof {
            let z = (k - e) as nat;
            assert(two(z) == 1);
            assert(n * two(z) == n) by (nonlinear_arith)
                requires
                    two(z) == 1,
            ;
        }
        while k < 23
            invariant
                e <= k <= 23,
                n < 2 * two(e as nat),
                scaled == n * two((k - e) as nat),
                scaled < 2 * two(k as nat),
                two(k as nat) <= 0x80_0000,
            decreases 23 - k,
        {
            proof {
                lemma_below_32(k as nat);
                lemma_below_32(k as nat + 1);
                assert(two((k + 1 - e) as nat) == 2 * two((k - e) as nat));
                assert(n * (2 * two((k - e) as nat)) == 2 * (n * two((k - e) as nat)))
                    by (nonlinear_arith);
                assert(two(k as nat + 1) == 2 * two(k as nat));
            }
            scaled = scaled * 2;
            k = k + 1;
        }
        (126 + e) * 0x80_0000 + (scaled as u32)
    } else {
        let mut p: u64 = 1;
        let mut k: u32 = 23;
        while k < e
            invariant
                23 <= k <= e < 32,
                p == two((k - 23) as nat),
                1 <= p <= 0x100,
            decreases e - k,
        {
            proof {
                lemma_below_32((k - 23) as nat);
                lemma_below_32((k + 1 - 23) as nat);
            }
            p = p * 2;
            k = k + 1;
        }
        let m: u64 = round_nearest(n, p);
        proof {
            lemma_split(e as nat);
            lemma_nearest_bound(n as int, p as int, 0x100_0000);
        }
        (126 + e) * 0x80_0000 + (m as u32)
    }
}

proof fn lemma_below_32(e: nat)
    ensures
        e < 32 ==> 1 <= two(e) <= 0x8000_0000,
        e < 31 ==> two(e) <= 0x4000_0000,
        e == 31 ==> two(e) == 0x8000_0000,
        e <= 23 ==> two(e) <= 0x80_0000,
        e < 23 ==> two(e) <= 0x40_0000,
        e <= 8 ==> two(e) <= 0x100,
        e == 8 ==> two(e) == 0x100,
        e == 23 ==> two(e) == 0x80_0000,
        e >= 32 ==> two(e) >= 0x1_0000_0000,
    decreases e,
{
    reveal_with_fuel(two, 33);
    if e > 32 {
        lemma_below_32((e - 1) as nat);
    }
}

proof fn lemma_split(e: nat)
    requires
        23 <= e < 32,
    ensures
        two(e) == two((e - 23) as nat) * 0x80_0000,
    decreases e,
{
    reveal_with_fuel(two, 33);
}

proof fn lemma_nearest_bound(x: int, p: int, b: int)
    requires
        p > 0,
        0 <= x < b * p,
    ensures
        0 <= nearest(x, p) <= b,
{
    assert(0 <= x / p < b) by (nonlinear_arith)
        requires
            p > 0,
            0 <= x < b * p,
    ;
}

/// The single nearest to `v`, a tie to the even one.
pub fn single_from_u32(v: u32) -> (r: u32)
    ensures
        r as int == single_of_nat(v as nat),
        finite(r),
{
    let r = natural_to_single(v as u64);
    proof {
        lemma_single_of_nat_finite(v as nat);
    }
    r
}

proof fn lemma_single_of_nat_finite(n: nat)
    requires
        n <= 0xffff_ffff,
    ensures
        0 <= single_of_nat(n) < 0x7f80_0000,
{
    if n > 0 {
        let e = log2(n);
        lemma_log2_bounds(n);
        lemma_below_32(e);
        if e <= 23 {
            lemma_two_add(e, (23 - e) as nat);
            lemma_below_32(23);
            assert(n * two((23 - e) as nat) < 2 * two(e) * two((23 - e) as nat))
                by (nonlinear_arith)
                requires
                    n < 2 * two(e),
                    two((23 - e) as nat) >= 1,
            {
                lemma_two_positive((23 - e) as nat);
            }
            assert(2 * two(e) * two((23 - e) as nat) == 2 * (two(e) * two((23 - e) as nat)))
                by (nonlinear_arith);
            lemma_two_positive((23 - e) as nat);
            assert(n * two((23 - e) as nat) >= 0) by (nonlinear_arith)
                requires
                    two((23 - e) as nat) >= 1,
            ;
        } else {
            lemma_split(e);
            lemma_two_positive((e - 23) as nat);
            lemma_nearest_bound(n as int, two((e - 23) as nat) as int, 0x100_0000);
        }
    }
}

pub proof fn lemma_two_add(a: nat, b: nat)
    ensures
        two(a + b) == two(a) * two(b),
    decreases b,
{
    if b == 0 {
        assert(two(a) * 1 == two(a));
    } else {
        lemma_two_add(a, (b - 1) as nat);
        assert(two(a + b) == 2 * two((a + b - 1) as nat));
        assert(two(a) * (2 * two((b - 1) as nat)) == 2 * (two(a) * two((b - 1) as nat)))
            by (nonlinear_arith);
    }
}

proof fn lemma_log2_bounds(n: nat)
    requires
        1 <= n,
    ensures
        two(log2(n)) <= n < 2 * two(log2(n)),
        n <= 0xffff_ffff ==> log2(n) < 32,
    decreases n,
{
    if n > 1 {
        lemma_log2_bounds(n / 2);
    }
    lemma_below_32(log2(n));
}

proof fn lemma_two_41()
    ensures
        two(41) == 0x200_0000_0000,
{
    lemma_two_add(20, 21);
    reveal_with_fuel(two, 22);
}

/// The single nearest to `n`, a tie to the even one.
pub fn single_from_wide(n: u128) -> (r: u32)
    requires
        n <= 0x1_0000_0000_0000_0000,
    ensures
        r as int == single_of_nat(n as nat),
        finite(r),
        r < 0x8000_0000,
{
    if n <= 0xffff_ffff {
        let r = single_from_u32(n as u32);
        proof {
            lemma_single_of_nat_finite(n as nat);
        }
        return r;
    }
    let mut e: u32 = 23;
    let mut p: u128 = 1;
    while n / p >= 0x100_0000
        invariant
            0xffff_ffff < n <= 0x1_0000_0000_0000_0000,
            23 <= e <= 64,
            1 <= p,
            p == two((e - 23) as nat),
            p * 0x80_0000 <= n,
        decreases n - p,
    {
        assert(p * 0x100_0000 <= n) by (nonlinear_arith)
            requires
                n / p >= 0x100_0000,
                p >= 1,
        ;
        proof {
            assert(two((e + 1 - 23) as nat) == 2 * two((e - 23) as nat));
            if e == 64 {
                lemma_two_41();
            }
        }
        p = p * 2;
        e = e + 1;
    }
    proof {
        assert(n < p * 0x100_0000) by (nonlinear_arith)
            requires
                n / p < 0x100_0000,
                p >= 1,
        ;
        lemma_two_add(23, (e - 23) as nat);
        lemma_below_32(23);
        assert(two(e as nat) == 0x80_0000 * p);
        assert(two(e as nat + 1) == 2 * two(e as nat));
        lemma_log2(n as nat, e as nat);
        lemma_nearest_bound(n as int, p as int, 0x100_0000);
    }
    let q: u128 = n / p;
    let rest: u128 = n % p;
    let m: u128 = if rest > p - rest || (rest == p - rest && q % 2 == 1) {
        q + 1
    } else {
        q
    };
    assert(m == nearest(n as int, p as int));
    let r: u32 = (126 + e) * 0x80_0000 + (m as u32);
    proof {
        assert(e > 23);
        assert(r as int == single_of_nat(n as nat));
        assert(r < 0x7f80_0000);
    }
    r
}

/// The single nearest to `v`, a tie to the even one.
pub open spec fn single_of_int(v: int) -> int {
    if v < 0 {
        0x8000_0000 + single_of_nat((-v) as nat)
    } else {
        single_of_nat(v as nat)
    }
}

pub fn single_from_i32(v: i32) -> (r: u32)
    ensures
        r as int == single_of_int(v as int),
        finite(r),
{
    if v >= 0 {
        single_from_u32(v as u32)
    } else {
        let m: u32 = if v == i32::MIN {
            0x8000_0000u32
        } else {
            (-v) as u32
        };
        let s: u32 = single_from_u32(m);
        proof {
            lemma_single_of_nat_finite(m as nat);
        }
        0x8000_0000u32 + s
    }
}

/// The single nearest to a double, a tie to the even one: past the largest single
/// an infinity, a NaN for a NaN.
///
/// `e` is the exponent field and `m` the fraction field. The significand
/// `2^52 + m` is rounded to the 24 bits of a normal single or to the fewer bits of
/// a subnormal one; below half of the smallest subnormal the result is zero.
pub open spec fn single_of_double(b: u64) -> int {
    let sign = if b >= 0x8000_0000_0000_0000 {
        0x8000_0000int
    } else {
        0int
    };
    let e = (b as int / 0x10_0000_0000_0000) % 0x800;
    let m = b as int % 0x10_0000_0000_0000;
    let significand = 0x10_0000_0000_0000 + m;
    sign + if e == 2047 {
        if m == 0 {
            0x7f80_0000
        } else {
            0x7fc0_0000 + (m / 0x2000_0000) % 0x40_0000
        }
    } else if e >= 1151 {
        0x7f80_0000
    } else if e >= 897 {
        (e - 897) * 0x80_0000 + nearest(significand, 0x2000_0000)
    } else if e >= 873 {
        nearest(significand, two((926 - e) as nat) as int)
    } else {
        0
    }
}

pub fn single_from_f64_bits(b: u64) -> (r: u32)
    ensures
        r as int == single_of_double(b),
{
    let sign: u32 = if b >= 0x8000_0000_0000_0000 {
        0x8000_0000
    } else {
        0
    };
    let e: u64 = (b / 0x10_0000_0000_0000) % 0x800;
    let m: u64 = b % 0x10_0000_0000_0000;
    if e == 2047 {
        if m == 0 {
            sign + 0x7f80_0000u32
        } else {
            sign + (0x7fc0_0000u32 + ((m / 0x2000_0000) % 0x40_0000) as u32)
        }
    } else if e >= 1151 {
        sign + 0x7f80_0000u32
    } else if e >= 897 {
        let s: u64 = round_nearest(0x10_0000_0000_0000 + m, 0x2000_0000);
        proof {
            lemma_nearest_bound(0x10_0000_0000_0000 + m as int, 0x2000_0000, 0x100_0000);
        }
        sign + ((e - 897) as u32 * 0x80_0000u32 + s as u32)
    } else if e >= 873 {
        let mut p: u64 = 0x2000_0000;
        let mut k: u64 = 897;
        proof {
            reveal_with_fuel(two, 30);
        }
        while k > e
            invariant
                873 <= e <= k <= 897,
                p == two((926 - k) as nat),
                p <= 0x20_0000_0000_0000,
                0x2000_0000 <= p,
                p as int * two((k - 873) as nat) as int == 0x20_0000_0000_0000,
            decreases k - e,
        {
            proof {
                assert(two((926 - (k - 1)) as nat) == 2 * two((926 - k) as nat));
                assert(two((k - 873) as nat) == 2 * two((k - 1 - 873) as nat));
                lemma_two_positive((k - 1 - 873) as nat);
                assert(p * 2 <= 0x20_0000_0000_0000 && (p * 2) * two((k - 1 - 873) as nat)
                    == 0x20_0000_0000_0000) by (nonlinear_arith)
                    requires
                        p as int * (2 * two((k - 1 - 873) as nat)) == 0x20_0000_0000_0000,
                        two((k - 1 - 873) as nat) >= 1,
                ;
            }
            p = p * 2;
            k = k - 1;
        }
        let s: u64 = round_nearest(0x10_0000_0000_0000 + m, p);
        proof {
            assert(0x10_0000_0000_0000 + m < 0x100_0000 * p);
            lemma_nearest_bound(0x10_0000_0000_0000 + m as int, p as int, 0x100_0000);
        }
        sign + s as u32
    } else {
        sign
    }
}

// ── Half precision ───────────────────────────────────────────────────────

/// The single with the value of the half `h`. A NaN keeps its fraction bits.
pub open spec fn single_of_half(h: u16) -> int {
    let sign = if h >= 0x8000 {
        0x8000_0000int
    } else {
        0int
    };
    let e = (h as int / 0x400) % 0x20;
    let m = h as int % 0x400;
    sign + if e == 0 {
        // m * 2^-24
        if m == 0 {
            0
        } else {
            single_of_nat(m as nat) - 24 * 0x80_0000
        }
    } else if e == 31 {
        0x7f80_0000 + m * 0x2000
    } else {
        (e + 112) * 0x80_0000 + m * 0x2000
    }
}

/// Converts an IEEE half to the bit pattern of the single of the same value.
pub fn f16_to_f32(h: u16) -> (r: u32)
    ensures
        r as int == single_of_half(h),
{
    let sign: u32 = if h >= 0x8000 {
        0x8000_0000
    } else {
        0
    };
    let e: u32 = ((h / 0x400) % 0x20) as u32;
    let m: u32 = (h % 0x400) as u32;
    if e == 0 {
        if m == 0 {
            sign
        } else {
            let s = natural_to_single(m as u64);
            proof {
                lemma_single_of_nat_finite(m as nat);
                lemma_log2_bounds(m as nat);
                lemma_two_positive((23 - log2(m as nat)) as nat);
                lemma_small_log2(m as nat);
                assert(m * two((23 - log2(m as nat)) as nat) >= 0) by (nonlinear_arith)
                    requires
                        two((23 - log2(m as nat)) as nat) >= 1,
                ;
            }
            sign + (s - 24 * 0x80_0000)
        }
    } else if e == 31 {
        sign + (0x7f80_0000u32 + m * 0x2000)
    } else {
        sign + ((e + 112) * 0x80_0000 + m * 0x2000)
    }
}

proof fn lemma_small_log2(m: nat)
    requires
        1 <= m < 0x400,
    ensures
        log2(m) <= 9,
{
    lemma_log2_bounds(m);
    reveal_with_fuel(two, 11);
    if log2(m) >= 10 {
        lemma_two_monotone(10, log2(m));
    }
}

proof fn lemma_two_monotone(a: nat, b: nat)
    requires
        a <= b,
    ensures
        two(a) <= two(b),
    decreases b,
{
    if a < b {
        lemma_two_monotone(a, (b - 1) as nat);
    }
}

/// The half nearest to the single `b`, a tie to the even one: past the largest
/// half an infinity, and one quiet NaN for every NaN of a sign.
pub open spec fn half_of_single(b: u32) -> int {
    let sign = if b >= 0x8000_0000 {
        0x8000int
    } else {
        0int
    };
    let e = (b as int / 0x80_0000) % 0x100;
    let m = b as int % 0x80_0000;
    sign + if e == 255 && m != 0 {
        0x7e00
    } else if e >= 143 {
        0x7c00
    } else if e >= 113 {
        (e - 112) * 0x400 + nearest(m, 0x2000)
    } else if e >= 102 {
        nearest(0x80_0000 + m, two((126 - e) as nat) as int)
    } else {
        0
    }
}

/// Converts the bit pattern of a single to the nearest IEEE half.
pub fn f32_to_f16(b: u32) -> (r: u16)
    ensures
        r as int == half_of_single(b),
{
    let sign: u16 = if b >= 0x8000_0000 {
        0x8000
    } else {
        0
    };
    let e: u32 = (b / 0x80_0000) % 0x100;
    let m: u32 = b % 0x80_0000;
    if e == 255 && m != 0 {
        sign + 0x7e00u16
    } else if e >= 143 {
        sign + 0x7c00u16
    } else if e >= 113 {
        let q: u64 = round_nearest(m as u64, 0x2000);
        proof {
            lemma_nearest_bound(m as int, 0x2000, 0x400);
        }
        sign + ((e - 112) as u16 * 0x400 + q as u16)
    } else if e >= 102 {
        let mut p: u64 = 0x4000;
        let mut k: u32 = 112;
        proof {
            reveal_with_fuel(two, 15);
        }
        while k > e
            invariant
                102 <= e <= k <= 112,
                p == two((126 - k) as nat),
                0x4000 <= p <= 0x100_0000,
                p as int * two((k - 102) as nat) as int == 0x100_0000,
            decreases k - e,
        {
            proof {
                assert(two((126 - (k - 1)) as nat) == 2 * two((126 - k) as nat));
                assert(two((k - 102) as nat) == 2 * two((k - 1 - 102) as nat));
                lemma_two_positive((k - 1 - 102) as nat);
                assert(p * 2 <= 0x100_0000 && (p * 2) * two((k - 1 - 102) as nat) == 0x100_0000)
                    by (nonlinear_arith)
                    requires
                        p as int * (2 * two((k - 1 - 102) as nat)) == 0x100_0000,
                        two((k - 1 - 102) as nat) >= 1,
                ;
            }
            p = p * 2;
            k = k - 1;
        }
        let q: u64 = round_nearest(0x80_0000 + m as u64, p);
        proof {
            lemma_nearest_bound(0x80_0000 + m as int, p as int, 0x400);
        }
        sign + q as u16
    } else {
        sign
    }
}

proof fn lemma_nearest_multiple(m: int, t: int)
    requires
        t >= 1,
    ensures
        nearest(m * t, t) == m,
{
    assert((m * t) / t == m && (m * t) % t == 0) by (nonlinear_arith)
        requires
            t >= 1,
    ;
}

/// The fields of a single with sign bit `s`, exponent field `e` and fraction `m`.
proof fn lemma_single_fields(b: u32, s: bool, e: int, m: int)
    requires
        b as int == (if s {
            0x8000_0000int
        } else {
            0
        }) + e * 0x80_0000 + m,
        0 <= e < 0x100,
        0 <= m < 0x80_0000,
    ensures
        b >= 0x8000_0000 <==> s,
        (b as int / 0x80_0000) % 0x100 == e,
        b as int % 0x80_0000 == m,
{
}

#[verifier::spinoff_prover]
proof fn lemma_subnormal_roundtrip(h: u16, b: u32)
    requires
        (h as int / 0x400) % 0x20 == 0,
        h as int % 0x400 != 0,
        b as int == single_of_half(h),
    ensures
        half_of_single(b) == h,
{
    let m = h as int % 0x400;
    let k = log2(m as nat);
    lemma_small_log2(m as nat);
    lemma_log2_bounds(m as nat);
    let t = two((23 - k) as nat);
    lemma_two_add(k, (23 - k) as nat);
    lemma_below_32(23);
    lemma_two_positive((23 - k) as nat);
    assert(m * t < 2 * (two(k) * t) && m * t >= two(k) * t) by (nonlinear_arith)
        requires
            two(k) <= m < 2 * two(k),
            t >= 1,
    ;
    lemma_single_fields(b, h >= 0x8000, 103 + k as int, m * t - 0x80_0000);
    lemma_nearest_multiple(m, t as int);
}

/// Every half but a NaN comes back from the single of its value.
#[verifier::spinoff_prover]
pub proof fn half_roundtrip(h: u16, b: u32)
    requires
        h as int % 0x8000 <= 0x7c00,
        b as int == single_of_half(h),
    ensures
        half_of_single(b) == h,
{
    let e = (h as int / 0x400) % 0x20;
    let m = h as int % 0x400;
    if e == 0 && m != 0 {
        lemma_subnormal_roundtrip(h, b);
    } else if e == 0 {
        lemma_single_fields(b, h >= 0x8000, 0, 0);
    } else if e == 31 {
        lemma_single_fields(b, h >= 0x8000, 255, 0);
    } else {
        lemma_single_fields(b, h >= 0x8000, e + 112, m * 0x2000);
        lemma_nearest_multiple(m, 0x2000);
    }
}

/// What is left of the single `b` in a half.
pub open spec fn half_rounded(b: u32) -> int {
    single_of_half(half_of_single(b) as u16)
}

/// Rounds each element to what a half can hold.
pub fn f16_round_inplace(x: &mut Vec<u32>)
    ensures
        final(x)@.len() == old(x)@.len(),
        forall|i: int|
            0 <= i < old(x)@.len() ==> #[trigger] final(x)@[i] == half_rounded(old(x)@[i]),
{
    let n: usize = x.len();
    let mut i: usize = 0;
    while i < n
        invariant
            i <= n == x@.len() == old(x)@.len(),
            forall|j: int| i <= j < n ==> x@[j] == old(x)@[j],
            forall|j: int| 0 <= j < i ==> #[trigger] x@[j] == half_rounded(old(x)@[j]),
        decreases n - i,
    {
        let h: u16 = f32_to_f16(x[i]);
        let b: u32 = f16_to_f32(h);
        x.set(i, b);
        i = i + 1;
    }
}

/// A number that was rounded to a half is kept by rounding it again.
pub proof fn half_rounding_is_final(b: u32, r: u32)
    requires
        r == half_rounded(b),
    ensures
        half_rounded(r) == r,
{
    let h = half_of_single(b) as u16;
    let e = (b as int / 0x80_0000) % 0x100;
    let m = b as int % 0x80_0000;
    if e == 255 && m != 0 {
        lemma_single_fields(r, b >= 0x8000_0000, 255, 0x40_0000);
    } else {
        if 113 <= e < 143 {
            lemma_nearest_bound(m, 0x2000, 0x400);
        } else if 102 <= e < 113 {
            let p = two((126 - e) as nat) as int;
            lemma_two_monotone(14, (126 - e) as nat);
            reveal_with_fuel(two, 15);
            assert(0x80_0000 + m <= 0x400 * p) by (nonlinear_arith)
                requires
                    p >= 0x4000,
                    m < 0x80_0000,
            ;
            lemma_nearest_bound(0x80_0000 + m, p, 0x400);
        }
        half_roundtrip(h, r);
    }
}

} // verus!
