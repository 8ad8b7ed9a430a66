//! Doubles, held as their IEEE 754 bits.

use vstd::arithmetic::power2::{
    lemma2_to64, lemma2_to64_rest, lemma_pow2_strictly_increases, pow2,
};
use vstd::bits::{lemma_u64_shl_is_mul, lemma_u64_shr_is_div};
use vstd::prelude::*;

verus! {

/// The weight of the sign bit.
pub const SIGN: u64 = 0x8000_0000_0000_0000;

/// The magnitude of infinity; what lies above is not a number.
pub const INFINITY: u64 = 0x7ff0_0000_0000_0000;

/// The weight of the lowest bit of the exponent.
pub const UNIT: u64 = 0x10_0000_0000_0000;

/// The quiet value that is not a number.
pub const QUIET_NAN: u64 = 0x7ff8_0000_0000_0000;

/// The bits without the sign: they grow with the absolute value.
pub open spec fn magnitude(bits: u64) -> int {
    if bits >= SIGN {
        bits - SIGN
    } else {
        bits as int
    }
}

pub open spec fn is_nan(bits: u64) -> bool {
    magnitude(bits) > INFINITY
}

/// A number that orders doubles as their values do; both zeros get 0.
pub open spec fn rank(bits: u64) -> int {
    if bits >= SIGN {
        -magnitude(bits)
    } else {
        magnitude(bits)
    }
}

/// `a < b` on doubles: false where either is not a number.
pub open spec fn less(a: u64, b: u64) -> bool {
    !is_nan(a) && !is_nan(b) && rank(a) < rank(b)
}

/// `a == 0.0` on doubles.
pub open spec fn is_zero(bits: u64) -> bool {
    rank(bits) == 0
}

/// The bits, with one form for all values that are not a number.
pub open spec fn canonical(bits: u64) -> u64 {
    if is_nan(bits) {
        QUIET_NAN
    } else {
        bits
    }
}

/// The significand of a double as an integer, with the leading bit that normal
/// numbers leave out.
pub open spec fn significand(bits: u64) -> nat {
    let fraction = (magnitude(bits) % UNIT as int) as nat;
    if magnitude(bits) < UNIT {
        fraction
    } else {
        fraction + UNIT as nat
    }
}

/// The power of two that the significand is multiplied with.
pub open spec fn scale(bits: u64) -> int {
    let exponent = magnitude(bits) / UNIT as int;
    if exponent == 0 {
        -1074
    } else {
        exponent - 1075
    }
}

/// The absolute value of a double without its fraction.
pub open spec fn whole_part(bits: u64) -> nat {
    if scale(bits) >= 0 {
        significand(bits) * pow2(scale(bits) as nat)
    } else {
        significand(bits) / pow2((-scale(bits)) as nat)
    }
}

/// A double as an integer: the fraction is cut off, what is too large for 64
/// bits (infinity too) becomes the nearest that fits, and what is not a number
/// becomes 0.
pub open spec fn truncated(bits: u64) -> i64 {
    let value = if bits >= SIGN {
        -(whole_part(bits) as int)
    } else {
        whole_part(bits) as int
    };
    if is_nan(bits) {
        0
    } else if value > i64::MAX {
        i64::MAX
    } else if value < i64::MIN {
        i64::MIN
    } else {
        value as i64
    }
}

fn magnitude_bits(bits: u64) -> (r: u64)
    ensures
        r == magnitude(bits),
{
    if bits >= SIGN {
        bits - SIGN
    } else {
        bits
    }
}

/// `a < b` on doubles.
pub fn double_less(a: u64, b: u64) -> (r: bool)
    ensures
        r == less(a, b),
{
    let ma: u64 = magnitude_bits(a);
    let mb: u64 = magnitude_bits(b);
    if ma > INFINITY || mb > INFINITY {
        return false;
    }
    if a >= SIGN {
        if b >= SIGN {
            mb < ma
        } else {
            ma != 0 || mb != 0
        }
    } else {
        if b >= SIGN {
            false
        } else {
            ma < mb
        }
    }
}

/// The bits of a double, with one form for all values that are not a number.
pub fn double_canonical(bits: u64) -> (r: u64)
    ensures
        r == canonical(bits),
{
    if magnitude_bits(bits) > INFINITY {
        QUIET_NAN
    } else {
        bits
    }
}

/// A double as an integer, its fraction cut off.
pub fn double_truncated(bits: u64) -> (r: i64)
    ensures
        r == truncated(bits),
{
    let m: u64 = magnitude_bits(bits);
    if m > INFINITY {
        return 0;
    }
    let exponent: u64 = m / UNIT;
    let fraction: u64 = m % UNIT;
    proof {
        lemma2_to64();
        lemma2_to64_rest();
    }
    if exponent < 1012 {
        // at most 53 bits, shifted right by 64 or more
        proof {
            let shift = (-scale(bits)) as nat;
            if shift > 64 {
                lemma_pow2_strictly_increases(64, shift);
            }
            vstd::arithmetic::div_mod::lemma_basic_div(
                significand(bits) as int,
                pow2(shift) as int,
            );
        }
        return 0;
    }
    let s: u64 = UNIT + fraction;
    if exponent >= 1086 {
        // 2^63 or more
        proof {
            let shift = scale(bits) as nat;
            if shift > 11 {
                lemma_pow2_strictly_increases(11, shift);
            }
            let p = pow2(shift);
            assert(s * p >= 0x8000_0000_0000_0000) by (nonlinear_arith)
                requires
                    s >= 0x10_0000_0000_0000,
                    p >= 2048,
            ;
        }
        return if bits >= SIGN {
            i64::MIN
        } else {
            i64::MAX
        };
    }
    let whole: u64 = if exponent >= 1075 {
        let shift: u64 = exponent - 1075;
        proof {
            if shift < 10 {
                lemma_pow2_strictly_increases(shift as nat, 10);
            }
            let p = pow2(shift as nat);
            assert(s * p < 0x8000_0000_0000_0000) by (nonlinear_arith)
                requires
                    s < 0x20_0000_0000_0000,
                    0 <= p <= 1024,
            ;
            lemma_u64_shl_is_mul(s, shift);
        }
        s << shift
    } else {
        let shift: u64 = 1075 - exponent;
        proof {
            lemma_u64_shr_is_div(s, shift);
            let p = pow2(shift as nat);
            assert(s as int / p as int <= s) by (nonlinear_arith)
                requires
                    s >= 0,
                    p >= 1,
            ;
        }
        s >> shift
    };
    assert(whole == whole_part(bits));
    if bits >= SIGN {
        -(whole as i64)
    } else {
        whole as i64
    }
}

/// Whether a double is zero.
pub fn double_is_zero(bits: u64) -> (r: bool)
    ensures
        r == is_zero(bits),
{
    magnitude_bits(bits) == 0
}

} // verus!
