//! The number that a scalar encodes, and its conversion to whole numbers.
//!
//! Every finite binary64 number is a whole multiple of 2^-1074, the smallest
//! positive one. Counting in that unit turns the numbers into integers, over
//! which their order, and the rounding of one to a whole number, can be stated
//! exactly.

use vstd::prelude::*;
use vstd::arithmetic::div_mod::{
    lemma_basic_div,
    lemma_div_is_ordered,
    lemma_div_multiples_vanish,
    lemma_div_multiples_vanish_quotient,
    lemma_fundamental_div_mod,
    lemma_fundamental_div_mod_converse,
    lemma_multiply_divide_lt,
};
use vstd::arithmetic::mul::{lemma_mul_inequality, lemma_mul_strict_inequality};
use vstd::arithmetic::power2::{
    pow2,
    lemma2_to64,
    lemma2_to64_rest,
    lemma_pow2_adds,
    lemma_pow2_pos,
    lemma_pow2_strictly_increases,
    lemma_pow2_unfold,
};
use vstd::bits::lemma_u64_shr_is_div;
use crate::scalar::{Scalar, SIGN_BIT};

verus! {

/// Two to the power 52: the number of encodings that share one exponent.
pub const FRACTION_SPAN: u64 = 0x10_0000_0000_0000;

/// Two to the power 53: above every significand.
pub const SIGNIFICAND_LIMIT: u64 = 0x20_0000_0000_0000;

/// How many units make one: two to the power 1074.
pub open spec fn units_per_one() -> int {
    pow2(1074) as int
}

impl Scalar {
    /// The eleven exponent bits, as a number.
    pub open spec fn exponent_field(self) -> int {
        self.magnitude() / (FRACTION_SPAN as int)
    }

    /// The fifty-two fraction bits, as a number.
    pub open spec fn fraction_field(self) -> int {
        self.magnitude() % (FRACTION_SPAN as int)
    }

    /// The absolute value of the number, counted in units of 2^-1074. Under
    /// the exponent field 0 the fraction counts units; under a field `e` above
    /// 0 the fraction, with the implicit bit before it, counts groups of
    /// 2^(e-1) units. Infinity counts as the number that such a count gives
    /// for its encoding, which lies above every finite one.
    pub open spec fn units(self) -> int {
        if self.exponent_field() == 0 {
            self.fraction_field()
        } else {
            (FRACTION_SPAN + self.fraction_field()) * pow2((self.exponent_field() - 1) as nat)
        }
    }

    /// The number, counted in units of 2^-1074.
    pub open spec fn signed_units(self) -> int {
        if self.sign_negative() {
            -self.units()
        } else {
            self.units()
        }
    }

    /// The number times 2^k, rounded toward zero and brought into the range
    /// of `u32`: a NaN and every number below zero give 0, a number too large
    /// gives the largest `u32`.
    pub open spec fn spec_floor_scaled(self, k: nat) -> int {
        if self.spec_is_nan() || self.sign_negative() {
            0
        } else {
            let whole = self.units() * pow2(k) / units_per_one();
            if whole > u32::MAX {
                u32::MAX as int
            } else {
                whole
            }
        }
    }

    /// The number rounded to the nearest whole number, halves away from zero,
    /// and brought into the range of `u32`: a NaN and every number below zero
    /// give 0, a number too large gives the largest `u32`.
    pub open spec fn spec_round_to_u32(self) -> int {
        if self.spec_is_nan() || self.sign_negative() {
            0
        } else {
            let whole = (2 * self.units() + units_per_one()) / (2 * units_per_one());
            if whole > u32::MAX {
                u32::MAX as int
            } else {
                whole
            }
        }
    }

    /// The absolute value times 2^k, rounded down, where that is below 2^53,
    /// and 2^53 otherwise.
    spec fn capped_floor_scaled(self, k: nat) -> int {
        let whole = self.units() * pow2(k) / units_per_one();
        if whole > SIGNIFICAND_LIMIT {
            SIGNIFICAND_LIMIT as int
        } else {
            whole
        }
    }

    /// The absolute value times 2^k, rounded down and capped at 2^53.
    fn capped_floor(self, k: u8) -> (r: u64)
        ensures
            r == self.capped_floor_scaled(k as nat),
            r <= SIGNIFICAND_LIMIT,
    {
        let m: u64 = self.magnitude_bits();
        let e: u64 = m / FRACTION_SPAN;
        let f: u64 = m % FRACTION_SPAN;
        proof {
            lemma2_to64_rest();
            lemma_pow2_pos(1074);
            lemma_pow2_pos(k as nat);
        }
        if e == 0 {
            proof {
                lemma_pow2_adds(52, k as nat);
                lemma_pow2_strictly_increases((52 + k) as nat, 1074);
                lemma_mul_strict_inequality(f as int, pow2(52) as int, pow2(k as nat) as int);
                lemma_mul_inequality(0, f as int, pow2(k as nat) as int);
                lemma_basic_div(f * pow2(k as nat), units_per_one());
            }
            return 0;
        }
        let sig: u64 = FRACTION_SPAN + f;
        let p: u64 = e - 1 + (k as u64);
        proof {
            lemma_pow2_adds((e - 1) as nat, k as nat);
            assert(self.units() * pow2(k as nat) == sig * pow2(p as nat)) by (nonlinear_arith)
                requires
                    self.units() == sig * pow2((e - 1) as nat),
                    pow2(p as nat) == pow2((e - 1) as nat) * pow2(k as nat),
            ;
            lemma_quotient_of_scaled(sig as int, p as nat);
        }
        if p > 1074 {
            proof {
                let high = pow2((p - 1074) as nat) as int;
                lemma_pow2_strictly_increases(0, (p - 1074) as nat);
                lemma2_to64();
                assert(sig * high >= SIGNIFICAND_LIMIT) by (nonlinear_arith)
                    requires
                        high >= 2,
                        sig >= FRACTION_SPAN,
                        SIGNIFICAND_LIMIT == 2 * FRACTION_SPAN,
                ;
            }
            SIGNIFICAND_LIMIT
        } else if p == 1074 {
            proof {
                lemma2_to64();
                assert(sig * pow2(0) == sig);
            }
            sig
        } else {
            let d: u64 = 1074 - p;
            if d >= 53 {
                proof {
                    if d > 53 {
                        lemma_pow2_strictly_increases(53, d as nat);
                    }
                    lemma_basic_div(sig as int, pow2(d as nat) as int);
                }
                0
            } else {
                proof {
                    lemma_u64_shr_is_div(sig, d);
                    lemma_pow2_pos(d as nat);
                    lemma_div_is_ordered(0, sig as int, pow2(d as nat) as int);
                    lemma_basic_div(0, pow2(d as nat) as int);
                    lemma_div_is_ordered(sig as int, sig as int, pow2(d as nat) as int);
                    assert(sig as int / (pow2(d as nat) as int) <= sig) by (nonlinear_arith)
                        requires
                            0 <= sig,
                            pow2(d as nat) >= 1,
                    ;
                }
                sig >> d
            }
        }
    }

    /// The binary64 number that equals `n`. Every `u32` is one exactly.
    pub fn from_u32(n: u32) -> (r: Scalar)
        ensures
            !r.spec_is_nan(),
            !r.sign_negative(),
            r.units() == n * units_per_one(),
    {
        if n == 0 {
            proof {
                lemma2_to64_rest();
                assert(0 * units_per_one() == 0);
            }
            return Scalar { bits: 0 };
        }
        let mut sig: u64 = n as u64;
        let mut e: u64 = 1075;
        proof {
            lemma2_to64();
            lemma2_to64_rest();
            assert(n * pow2(0) == n) by (nonlinear_arith)
                requires
                    pow2(0) == 1,
            ;
        }
        while sig < FRACTION_SPAN
            invariant
                0 < n,
                0 < sig < SIGNIFICAND_LIMIT,
                1075 - 52 <= e <= 1075,
                sig == n * pow2((1075 - e) as nat),
                sig * pow2((e - 1) as nat) == n * units_per_one(),
            decreases e,
        {
            proof {
                let up = pow2((1075 - e) as nat) as int;
                let down = pow2((e - 2) as nat) as int;
                lemma2_to64_rest();
                lemma_pow2_unfold((1075 - e + 1) as nat);
                lemma_pow2_unfold((e - 1) as nat);
                assert(n * (2 * up) == 2 * (n * up)) by (nonlinear_arith);
                assert((sig * 2) * down == sig * (2 * down)) by (nonlinear_arith);
                if e == 1075 - 52 {
                    assert(up == FRACTION_SPAN);
                    assert(n * up >= up) by (nonlinear_arith)
                        requires
                            n >= 1,
                            up >= 0,
                    ;
                    assert(false);
                }
            }
            sig = sig * 2;
            e = e - 1;
        }
        proof {
            assert(FRACTION_SPAN as int * (e as int) + (sig - FRACTION_SPAN) == (e as int)
                * FRACTION_SPAN + (sig - FRACTION_SPAN)) by (nonlinear_arith);
        }
        let bits: u64 = e * FRACTION_SPAN + (sig - FRACTION_SPAN);
        let r = Scalar { bits };
        proof {
            lemma_fundamental_div_mod_converse(
                r.magnitude(),
                FRACTION_SPAN as int,
                e as int,
                sig - FRACTION_SPAN,
            );
        }
        r
    }

    /// The number times 2^k, rounded toward zero, as a `u32`: what a cast of
    /// the product gives.
    pub fn floor_scaled(self, k: u8) -> (r: u32)
        ensures
            r == self.spec_floor_scaled(k as nat),
    {
        if self.is_nan() || self.bits >= SIGN_BIT {
            return 0;
        }
        let whole: u64 = self.capped_floor(k);
        if whole > 0xFFFF_FFFF {
            u32::MAX
        } else {
            whole as u32
        }
    }

    /// The number rounded to the nearest whole number, halves away from zero,
    /// as a `u32`: what a cast of the rounded number gives.
    pub fn round_to_u32(self) -> (r: u32)
        ensures
            r == self.spec_round_to_u32(),
    {
        if self.is_nan() || self.bits >= SIGN_BIT {
            return 0;
        }
        let doubled: u64 = self.capped_floor(1);
        let whole: u64 = (doubled + 1) / 2;
        proof {
            lemma2_to64();
            lemma_pow2_pos(1074);
            lemma_units_not_negative(self);
            lemma_round_by_doubling(self.units(), units_per_one());
            let exact = self.units() * pow2(1) / units_per_one();
            assert(self.units() * pow2(1) == 2 * self.units());
            if exact > SIGNIFICAND_LIMIT {
                assert((exact + 1) / 2 >= (SIGNIFICAND_LIMIT + 1) / 2);
            }
        }
        if whole > 0xFFFF_FFFF {
            u32::MAX
        } else {
            whole as u32
        }
    }
}

/// `sig * 2^p`, counted in units, is `sig * 2^(p - 1074)` whole ones from the
/// exponent 1074 on, and `sig / 2^(1074 - p)` below it.
proof fn lemma_quotient_of_scaled(sig: int, p: nat)
    requires
        0 <= sig,
    ensures
        p >= 1074 ==> sig * pow2(p) / units_per_one() == sig * pow2((p - 1074) as nat),
        p < 1074 ==> sig * pow2(p) / units_per_one() == sig / (pow2((1074 - p) as nat) as int),
{
    lemma_pow2_pos(1074);
    if p >= 1074 {
        let j = (p - 1074) as nat;
        lemma_pow2_adds(1074, j);
        assert(sig * pow2(p) == pow2(1074) * (sig * pow2(j))) by (nonlinear_arith)
            requires
                pow2(p) == pow2(1074) * pow2(j),
        ;
        lemma_div_multiples_vanish(sig * pow2(j), pow2(1074) as int);
    } else {
        let d = (1074 - p) as nat;
        lemma_pow2_adds(p, d);
        lemma_pow2_pos(p);
        lemma_pow2_pos(d);
        lemma_div_multiples_vanish_quotient(pow2(p) as int, sig, pow2(d) as int);
        assert(pow2(p) * sig == sig * pow2(p)) by (nonlinear_arith);
    }
}

/// Rounding to the nearest whole number is adding a half and rounding down,
/// and that is rounding the double down, adding one and halving.
proof fn lemma_round_by_doubling(u: int, d: int)
    requires
        0 <= u,
        0 < d,
    ensures
        (2 * u + d) / (2 * d) == ((2 * u) / d + 1) / 2,
{
    let q = (2 * u) / d;
    let r = (2 * u) % d;
    lemma_fundamental_div_mod(2 * u, d);
    let m = (q + 1) / 2;
    let s = (q + 1) % 2;
    assert(2 * u + d == m * (2 * d) + (s * d + r)) by (nonlinear_arith)
        requires
            2 * u == d * q + r,
            q + 1 == 2 * m + s,
    ;
    assert(0 <= s * d + r < 2 * d) by (nonlinear_arith)
        requires
            0 <= s <= 1,
            0 <= r < d,
    ;
    lemma_fundamental_div_mod_converse(2 * u + d, 2 * d, m, s * d + r);
}

/// A count of units is not negative.
pub proof fn lemma_units_not_negative(a: Scalar)
    ensures
        0 <= a.units(),
{
    if a.exponent_field() != 0 {
        lemma_pow2_pos((a.exponent_field() - 1) as nat);
        lemma_mul_inequality(
            0,
            FRACTION_SPAN + a.fraction_field(),
            pow2((a.exponent_field() - 1) as nat) as int,
        );
    }
}

/// A larger magnitude encodes a larger absolute value.
pub proof fn lemma_units_increase(a: Scalar, b: Scalar)
    requires
        a.magnitude() < b.magnitude(),
    ensures
        a.units() < b.units(),
{
    let span = FRACTION_SPAN as int;
    let ea = a.exponent_field();
    let eb = b.exponent_field();
    let fa = a.fraction_field();
    let fb = b.fraction_field();
    lemma_fundamental_div_mod(a.magnitude(), span);
    lemma_fundamental_div_mod(b.magnitude(), span);
    lemma_div_is_ordered(a.magnitude(), b.magnitude(), span);
    if ea == eb {
        if ea != 0 {
            lemma_pow2_pos((ea - 1) as nat);
            lemma_mul_strict_inequality(span + fa, span + fb, pow2((ea - 1) as nat) as int);
        }
    } else {
        let high = pow2((eb - 1) as nat) as int;
        lemma_pow2_pos((eb - 1) as nat);
        lemma_mul_inequality(1, high, span + fb);
        assert((span + fb) * high >= span + fb) by (nonlinear_arith)
            requires
                1 * (span + fb) <= high * (span + fb),
        ;
        if ea != 0 {
            let low = pow2((ea - 1) as nat) as int;
            lemma_pow2_pos((ea - 1) as nat);
            lemma_pow2_unfold(ea as nat);
            if ea < eb - 1 {
                lemma_pow2_strictly_increases(ea as nat, (eb - 1) as nat);
            }
            assert((span + fa) * low < (span + fb) * high) by (nonlinear_arith)
                requires
                    0 <= fa < span,
                    0 <= fb,
                    0 < low,
                    2 * low <= high,
            ;
        }
    }
}

/// The order of two numbers is the order of their counts of units: `a < b`
/// holds exactly when `a` is fewer units than `b`, and `a <= b` exactly when
/// it is not more.
pub proof fn lemma_order_is_numeric(a: Scalar, b: Scalar)
    requires
        !a.spec_is_nan(),
        !b.spec_is_nan(),
    ensures
        a.spec_lt(b) == (a.signed_units() < b.signed_units()),
        a.spec_le(b) == (a.signed_units() <= b.signed_units()),
{
    lemma_units_not_negative(a);
    lemma_units_not_negative(b);
    if a.magnitude() < b.magnitude() {
        lemma_units_increase(a, b);
    }
    if b.magnitude() < a.magnitude() {
        lemma_units_increase(b, a);
    }
    let zero = Scalar { bits: 0 };
    assert(zero.units() == 0);
    if 0 < a.magnitude() {
        lemma_units_increase(zero, a);
    }
    if 0 < b.magnitude() {
        lemma_units_increase(zero, b);
    }
}

/// Changing the sign of a number changes the sign of its count of units, and
/// the absolute value counts the same units without a sign.
pub proof fn lemma_sign_of_units(a: Scalar)
    ensures
        a.spec_negated().signed_units() == -a.signed_units(),
        a.spec_abs().signed_units() == a.units(),
{
    assert(a.spec_negated().magnitude() == a.magnitude());
    assert(a.spec_abs().magnitude() == a.magnitude());
}

/// A whole number that fits a `u32` is given back by both conversions: if a
/// number that is not below zero is `n` ones exactly, rounding it gives `n`,
/// and so does cutting it off.
pub proof fn lemma_whole_number_round_trip(a: Scalar, n: u32)
    requires
        !a.spec_is_nan(),
        !a.sign_negative(),
        a.units() == n * units_per_one(),
    ensures
        a.spec_round_to_u32() == n,
        a.spec_floor_scaled(0) == n,
{
    let d = units_per_one();
    lemma_pow2_pos(1074);
    lemma2_to64();
    assert(2 * (n * d) + d == n * (2 * d) + d) by (nonlinear_arith);
    lemma_fundamental_div_mod_converse(2 * a.units() + d, 2 * d, n as int, d);
    assert(a.units() * pow2(0) == d * n) by (nonlinear_arith)
        requires
            a.units() == n * d,
            pow2(0) == 1,
    ;
    lemma_div_multiples_vanish(n as int, d);
}

/// For a number of at least 2^-1022 and below 2^(53 - k), not below zero, the
/// product with 2^k rounded down is the significand without its last
/// `1075 - e - k` bits, `e` being the exponent field.
pub proof fn lemma_floor_scaled_normal(a: Scalar, k: nat)
    requires
        !a.spec_is_nan(),
        !a.sign_negative(),
        1 <= a.exponent_field(),
        a.exponent_field() + k < 1075,
    ensures
        a.units() * pow2(k) / units_per_one() == (FRACTION_SPAN + a.fraction_field()) / (pow2(
            (1075 - a.exponent_field() - k) as nat,
        ) as int),
{
    let e = a.exponent_field();
    let sig = FRACTION_SPAN + a.fraction_field();
    let p = (e - 1 + k) as nat;
    lemma_pow2_adds((e - 1) as nat, k);
    assert(a.units() * pow2(k) == sig * pow2(p)) by (nonlinear_arith)
        requires
            a.units() == sig * pow2((e - 1) as nat),
            pow2(p) == pow2((e - 1) as nat) * pow2(k),
    ;
    lemma_quotient_of_scaled(sig, p);
}

/// A number below one, times 2^k and rounded down, is below 2^k.
pub proof fn lemma_floor_scaled_below(a: Scalar, k: nat)
    requires
        a.magnitude() < crate::scalar::ONE_BITS,
    ensures
        a.spec_floor_scaled(k) < pow2(k),
        a.units() < units_per_one(),
{
    let one = Scalar { bits: crate::scalar::ONE_BITS };
    lemma_units_increase(a, one);
    lemma2_to64_rest();
    assert(one.exponent_field() == 1023);
    assert(one.fraction_field() == 0);
    lemma_pow2_adds(52, 1022);
    lemma_pow2_pos(1074);
    lemma_pow2_pos(k);
    lemma_units_not_negative(a);
    lemma_mul_strict_inequality(a.units(), units_per_one(), pow2(k) as int);
    lemma_mul_inequality(0, a.units(), pow2(k) as int);
    assert(units_per_one() * pow2(k) == pow2(k) * units_per_one()) by (nonlinear_arith);
    lemma_multiply_divide_lt(a.units() * pow2(k), units_per_one(), pow2(k) as int);
    lemma_basic_div(0, units_per_one());
}

} // verus!
