//! Numbers written as text.
use vstd::prelude::*;

use crate::text::chars_of;

verus! {

/// The value of a digit; none for a character that is no digit of the radix.
pub open spec fn digit_value(c: char, radix: int) -> Option<int> {
    let d = if '0' <= c && c <= '9' {
        c as int - 48
    } else if 'a' <= c && c <= 'z' {
        c as int - 87
    } else if 'A' <= c && c <= 'Z' {
        c as int - 55
    } else {
        radix
    };
    if d < radix {
        Some(d)
    } else {
        None
    }
}

/// The value of the first `n` digits; none where one of them is no digit.
pub open spec fn digits_value(s: Seq<char>, radix: int, n: nat) -> Option<int>
    decreases n,
{
    if n == 0 {
        Some(0)
    } else {
        match digits_value(s, radix, (n - 1) as nat) {
            Some(v) => match digit_value(s[n - 1], radix) {
                Some(d) => Some(v * radix + d),
                None => None,
            },
            None => None,
        }
    }
}

/// The text without a leading plus sign.
pub open spec fn unsigned_part(s: Seq<char>) -> Seq<char> {
    if s.len() > 0 && s[0] == '+' {
        s.subrange(1, s.len() as int)
    } else {
        s
    }
}

/// The natural number that a text denotes: digits, with a plus sign before them or
/// without.
pub open spec fn natural(s: Seq<char>, radix: int) -> Option<int> {
    let d = unsigned_part(s);
    if d.len() == 0 {
        None
    } else {
        digits_value(d, radix, d.len())
    }
}

/// The integer that a decimal text denotes: digits, with a sign before them or without.
pub open spec fn integer(s: Seq<char>) -> Option<int> {
    if s.len() > 0 && s[0] == '-' {
        let d = s.subrange(1, s.len() as int);
        if d.len() == 0 {
            None
        } else {
            match digits_value(d, 10, d.len()) {
                Some(v) => Some(-v),
                None => None,
            }
        }
    } else {
        natural(s, 10)
    }
}

/// A number no larger than `max`.
pub open spec fn at_most(v: Option<int>, max: int) -> Option<int> {
    match v {
        Some(n) => if n <= max {
            Some(n)
        } else {
            None
        },
        None => None,
    }
}

pub proof fn lemma_digits(s: Seq<char>, radix: int, k: nat, n: nat)
    requires
        k <= n,
        2 <= radix <= 36,
    ensures
        digits_value(s, radix, n) matches Some(v) ==> (digits_value(s, radix, k) matches Some(u)
            && 0 <= u <= v),
    decreases n,
{
    if k < n {
        lemma_digits(s, radix, k, (n - 1) as nat);
        lemma_digits(s, radix, (n - 1) as nat, (n - 1) as nat);
        match digits_value(s, radix, n) {
            Some(v) => {
                let u = digits_value(s, radix, (n - 1) as nat)->0;
                assert(u <= u * radix) by (nonlinear_arith)
                    requires
                        u >= 0,
                        radix >= 2,
                ;
            },
            None => {},
        }
    } else if n > 0 {
        lemma_digits(s, radix, (n - 1) as nat, (n - 1) as nat);
        match digits_value(s, radix, n) {
            Some(v) => {
                let u = digits_value(s, radix, (n - 1) as nat)->0;
                assert(0 <= u * radix) by (nonlinear_arith)
                    requires
                        u >= 0,
                        radix >= 2,
                ;
            },
            None => {},
        }
    }
}

fn digit_of(c: char, radix: u32) -> (r: Option<u32>)
    requires
        2 <= radix <= 36,
    ensures
        match r {
            Some(d) => digit_value(c, radix as int) == Some(d as int) && d < radix,
            None => digit_value(c, radix as int) is None,
        },
{
    let d: u32 = if '0' <= c && c <= '9' {
        c as u32 - 48
    } else if 'a' <= c && c <= 'z' {
        c as u32 - 87
    } else if 'A' <= c && c <= 'Z' {
        c as u32 - 55
    } else {
        radix
    };
    if d < radix {
        Some(d)
    } else {
        None
    }
}

/// The value of the digits from `from` on, where it is no larger than `max`.
fn scan_digits(chars: &Vec<char>, from: usize, radix: u32, max: u64) -> (r: Option<u64>)
    requires
        from < chars@.len(),
        2 <= radix <= 36,
    ensures
        ({
            let d = chars@.subrange(from as int, chars@.len() as int);
            match r {
                Some(v) => at_most(digits_value(d, radix as int, d.len()), max as int) == Some(
                    v as int,
                ),
                None => at_most(digits_value(d, radix as int, d.len()), max as int) is None,
            }
        }),
{
    let ghost d = chars@.subrange(from as int, chars@.len() as int);
    let mut v: u64 = 0;
    let mut i: usize = from;
    while i < chars.len()
        invariant
            from <= i <= chars@.len(),
            2 <= radix <= 36,
            d == chars@.subrange(from as int, chars@.len() as int),
            digits_value(d, radix as int, (i - from) as nat) == Some(v as int),
            v <= max,
        decreases chars@.len() - i,
    {
        assert(d[i - from] == chars@[i as int]);
        proof {
            lemma_digits(d, radix as int, (i + 1 - from) as nat, d.len());
        }
        match digit_of(chars[i], radix) {
            Some(x) => {
                assert(0 <= v * radix <= 0x1_0000_0000_0000_0000 * 36) by (nonlinear_arith)
                    requires
                        0 <= v <= 0x1_0000_0000_0000_0000,
                        0 <= radix <= 36,
                ;
                let wide: u128 = v as u128 * radix as u128 + x as u128;
                if wide > max as u128 {
                    return None;
                }
                v = wide as u64;
            },
            None => {
                return None;
            },
        }
        i = i + 1;
    }
    Some(v)
}

/// The natural number that a text denotes, where it is no larger than `max`.
pub fn parse_natural(s: &str, radix: u32, max: u64) -> (r: Option<u64>)
    requires
        2 <= radix <= 36,
    ensures
        match r {
            Some(v) => at_most(natural(s@, radix as int), max as int) == Some(v as int),
            None => at_most(natural(s@, radix as int), max as int) is None,
        },
{
    let chars = chars_of(s);
    let from: usize = if chars.len() > 0 && chars[0] == '+' {
        1
    } else {
        0
    };
    assert(unsigned_part(s@) =~= chars@.subrange(from as int, chars@.len() as int));
    if from >= chars.len() {
        return None;
    }
    scan_digits(&chars, from, radix, max)
}

/// The integer that a decimal text denotes, where it lies in the range of an `i64`.
pub fn parse_integer(s: &str) -> (r: Option<i64>)
    ensures
        match r {
            Some(v) => integer(s@) == Some(v as int),
            None => match integer(s@) {
                Some(v) => v < i64::MIN || v > i64::MAX,
                None => true,
            },
        },
{
    let chars = chars_of(s);
    if chars.len() > 0 && chars[0] == '-' {
        if chars.len() == 1 {
            return None;
        }
        proof {
            let d = s@.subrange(1, s@.len() as int);
            lemma_digits(d, 10, d.len(), d.len());
        }
        match scan_digits(&chars, 1, 10, 0x8000_0000_0000_0000) {
            Some(v) => {
                if v == 0x8000_0000_0000_0000 {
                    Some(i64::MIN)
                } else {
                    Some(-(v as i64))
                }
            },
            None => None,
        }
    } else {
        match parse_natural(s, 10, 0x7fff_ffff_ffff_ffff) {
            Some(v) => Some(v as i64),
            None => None,
        }
    }
}

} // verus!
