//! IEEE 754 binary64 numbers, carried as their 64-bit patterns.
//!
//! Coordinates, residuals and zoom levels reach the library as bit patterns.
//! It never computes with them: it orders them. The model of a pattern is the
//! number that it stands for, in units of the least positive binary64 number,
//! so that every finite number is a mathematical integer.

use vstd::arithmetic::power2::*;
use vstd::prelude::*;

verus! {

/// The bit pattern of 0.25.
pub const QUARTER: u64 = 0x3fd0_0000_0000_0000;

/// The bit pattern of 1.0.
pub const ONE: u64 = 0x3ff0_0000_0000_0000;

/// The bit pattern of 5.0.
pub const FIVE: u64 = 0x4014_0000_0000_0000;

/// The bit pattern of positive infinity.
pub const INFINITY: u64 = 0x7ff0_0000_0000_0000;

/// The bit pattern of negative zero: the sign bit alone.
pub const SIGN: u64 = 0x8000_0000_0000_0000;

/// How many magnitudes share one exponent.
pub const FRACTIONS: u64 = 0x10_0000_0000_0000;

/// The pattern without its sign bit.
pub open spec fn magnitude(bits: u64) -> nat {
    if bits >= SIGN {
        (bits - SIGN) as nat
    } else {
        bits as nat
    }
}

/// The number that a magnitude stands for, in units of the least positive
/// number. Infinity counts as the first number past the largest finite one.
pub open spec fn magnitude_value(m: nat) -> nat {
    let exponent = m / (FRACTIONS as nat);
    let fraction = m % (FRACTIONS as nat);
    if exponent == 0 {
        fraction
    } else {
        (FRACTIONS as nat + fraction) * pow2((exponent - 1) as nat)
    }
}

/// The number that a pattern stands for, in units of the least positive number.
pub open spec fn value(bits: u64) -> int {
    if bits >= SIGN {
        -(magnitude_value(magnitude(bits)) as int)
    } else {
        magnitude_value(magnitude(bits)) as int
    }
}

/// Whether a pattern stands for no number at all.
pub open spec fn is_nan(bits: u64) -> bool {
    magnitude(bits) > INFINITY
}

/// Whether a pattern stands for a number other than an infinity.
pub open spec fn is_finite(bits: u64) -> bool {
    magnitude(bits) < INFINITY
}

/// Whether `a` is less than `b`. A pattern that is no number is neither less
/// nor greater than any other.
pub open spec fn lt(a: u64, b: u64) -> bool {
    !is_nan(a) && !is_nan(b) && value(a) < value(b)
}

/// Whether a pattern stands for a number from 0 to 1, both ends included. 1 is
/// two to the 1074th units.
pub open spec fn in_unit_interval(bits: u64) -> bool {
    !is_nan(bits) && 0 <= value(bits) <= pow2(1074)
}

/// Larger magnitudes stand for larger numbers.
pub proof fn lemma_magnitudes_ordered(m: nat, n: nat)
    requires
        m < n,
    ensures
        magnitude_value(m) < magnitude_value(n),
{
    let f = FRACTIONS as nat;
    let em = m / f;
    let en = n / f;
    let fm = m % f;
    let gn = n % f;
    assert(m == em * f + fm && n == en * f + gn && 0 <= fm < f && 0 <= gn < f);
    assert(em <= en);
    if em == en {
        assert(fm < gn);
        if em > 0 {
            let p = pow2((em - 1) as nat);
            lemma_pow2_pos((em - 1) as nat);
            assert((f + fm) * p < (f + gn) * p) by (nonlinear_arith)
                requires
                    fm < gn,
                    p > 0,
            ;
        }
    } else {
        let p = pow2((en - 1) as nat);
        lemma_pow2_pos((en - 1) as nat);
        assert(f * p <= (f + gn) * p) by (nonlinear_arith)
            requires
                p > 0,
                gn >= 0,
        ;
        if em == 0 {
            assert(fm < f * p) by (nonlinear_arith)
                requires
                    fm < f,
                    p > 0,
            ;
        } else {
            let q = pow2((em - 1) as nat);
            lemma_pow2_pos((em - 1) as nat);
            lemma_pow2_unfold(em);
            if em < en - 1 {
                lemma_pow2_strictly_increases(em, (en - 1) as nat);
            }
            assert((f + fm) * q < f * (2 * q)) by (nonlinear_arith)
                requires
                    fm < f,
                    q > 0,
            ;
            assert(f * (2 * q) <= f * p) by (nonlinear_arith)
                requires
                    2 * q <= p,
                    f >= 0,
            ;
        }
    }
}

/// Magnitudes are ordered exactly as the numbers that they stand for.
pub proof fn lemma_magnitude_order(m: nat, n: nat)
    ensures
        magnitude_value(m) < magnitude_value(n) <==> m < n,
        magnitude_value(m) == magnitude_value(n) <==> m == n,
        magnitude_value(0) == 0,
{
    if m < n {
        lemma_magnitudes_ordered(m, n);
    }
    if n < m {
        lemma_magnitudes_ordered(n, m);
    }
}

/// What the named patterns stand for. 1 is two to the 1074th units.
pub proof fn lemma_constants()
    ensures
        value(ONE) == pow2(1074),
        value(QUARTER) == pow2(1072),
        value(FIVE) == 5 * pow2(1074),
{
    let f = FRACTIONS as nat;
    assert(magnitude(ONE) / f == 1023 && magnitude(ONE) % f == 0);
    assert(magnitude(QUARTER) / f == 1021 && magnitude(QUARTER) % f == 0);
    assert(magnitude(FIVE) / f == 1025 && magnitude(FIVE) % f == 0x4_0000_0000_0000);
    assert(pow2(52) == f) by {
        lemma2_to64();
        lemma_pow2_adds(32, 20);
    }
    lemma_pow2_adds(52, 1022);
    lemma_pow2_adds(52, 1020);
    lemma_pow2_unfold(1023);
    lemma_pow2_unfold(1024);
    let p = pow2(1022);
    assert((f + 0x4_0000_0000_0000) * (2 * (2 * p)) == 5 * (f * p)) by (nonlinear_arith)
        requires
            f == 0x10_0000_0000_0000,
    ;
}

fn magnitude_of(bits: u64) -> (r: u64)
    ensures
        r == magnitude(bits),
{
    if bits >= SIGN {
        bits - SIGN
    } else {
        bits
    }
}

/// Whether `a` is less than `b`.
pub fn less_than(a: u64, b: u64) -> (r: bool)
    ensures
        r == lt(a, b),
{
    let m = magnitude_of(a);
    let n = magnitude_of(b);
    proof {
        lemma_magnitude_order(m as nat, n as nat);
        lemma_magnitude_order(n as nat, m as nat);
        lemma_magnitude_order(0, m as nat);
        lemma_magnitude_order(0, n as nat);
    }
    if m > INFINITY || n > INFINITY {
        false
    } else if a >= SIGN {
        if b >= SIGN {
            n < m
        } else {
            m != 0 || n != 0
        }
    } else {
        b < SIGN && m < n
    }
}

/// Whether `bits` stands for a number from 0 to 1, both ends included.
pub fn unit_interval_contains(bits: u64) -> (r: bool)
    ensures
        r == in_unit_interval(bits),
{
    proof {
        lemma_constants();
        lemma_magnitude_order(magnitude(bits), magnitude(ONE));
        lemma_magnitude_order(magnitude(ONE), magnitude(bits));
        lemma_magnitude_order(0, magnitude(bits));
    }
    bits <= ONE || bits == SIGN
}

/// The numbers are laid out as the format has it: zero comes first, and the
/// step from one magnitude to the next is one unit at first and doubles with
/// every exponent after the first two.
pub proof fn law_steps_double_with_the_exponent(m: nat)
    ensures
        magnitude_value(0) == 0,
        magnitude_value(m + 1) - magnitude_value(m) == if m < 0x20_0000_0000_0000 {
            1
        } else {
            pow2((m / 0x10_0000_0000_0000 - 1) as nat) as int
        },
{
    let f = FRACTIONS as nat;
    let e = m / f;
    let g = m % f;
    assert(m == e * f + g && 0 <= g < f);
    lemma2_to64();
    assert(pow2(0) == 1);
    let p = pow2((e - 1) as nat);
    if g + 1 < f {
        assert((m + 1) / f == e && (m + 1) % f == g + 1);
        if e > 0 {
            assert((f + (g + 1)) * p == (f + g) * p + p) by (nonlinear_arith);
        }
    } else {
        assert((m + 1) / f == e + 1 && (m + 1) % f == 0);
        if e == 0 {
            assert(magnitude_value(m + 1) == f * pow2(0));
        } else {
            lemma_pow2_unfold(e);
            assert(f * (2 * p) == (f + g) * p + p) by (nonlinear_arith)
                requires
                    g + 1 == f,
            ;
        }
    }
    if e == 1 {
        assert(p == 1);
    }
}

/// The sign bit negates: a pattern with it stands for the negative of the
/// number without it.
pub proof fn law_sign_negates(bits: u64)
    requires
        bits < 0x8000_0000_0000_0000,
    ensures
        value(bits) >= 0,
        value((bits + 0x8000_0000_0000_0000) as u64) == -value(bits),
        is_nan((bits + 0x8000_0000_0000_0000) as u64) == is_nan(bits),
        is_finite((bits + 0x8000_0000_0000_0000) as u64) == is_finite(bits),
        is_nan(bits) <==> bits > 0x7ff0_0000_0000_0000,
        is_finite(bits) <==> bits < 0x7ff0_0000_0000_0000,
{
}

/// The order is strict, and total but for the patterns that are no numbers and
/// the two zeros.
pub proof fn law_order_is_strict_and_total(a: u64, b: u64, c: u64)
    ensures
        !lt(a, a),
        lt(a, b) ==> !lt(b, a),
        lt(a, b) && lt(b, c) ==> lt(a, c),
        is_nan(a) ==> !lt(a, b) && !lt(b, a),
        !is_nan(a) && !is_nan(b) && !lt(a, b) && !lt(b, a) ==> a == b || (a % 0x8000_0000_0000_0000
            == 0 && b % 0x8000_0000_0000_0000 == 0),
        a < b < 0x7ff0_0000_0000_0001 ==> lt(a, b),
{
    lemma_magnitude_order(magnitude(a), magnitude(b));
    lemma_magnitude_order(magnitude(b), magnitude(a));
    lemma_magnitude_order(0, magnitude(a));
    lemma_magnitude_order(0, magnitude(b));
}

/// The unit interval is what is a number, not less than 0 and not greater
/// than 1.
pub proof fn law_unit_interval_is_from_0_to_1(bits: u64)
    ensures
        in_unit_interval(bits) <==> !is_nan(bits) && !lt(bits, 0) && !lt(
            0x3ff0_0000_0000_0000,
            bits,
        ),
{
    lemma_constants();
    lemma_magnitude_order(0, magnitude(bits));
}

} // verus!
