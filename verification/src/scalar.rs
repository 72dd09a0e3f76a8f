//! The scalar type that tensors are made of.
//!
//! The engine never fixes a concrete number type: every layer and optimizer
//! is generic over a type implementing [`Scalar`].  Each operation has a
//! specification function chosen by the implementation, and the executable
//! method must return exactly that value, so every scalar operation is a
//! deterministic, pure function of its operands.  The contracts of the whole
//! engine are stated over those specification functions.
//!
//! The crate ships one implementation, for `i64`, whose ring operations wrap
//! on overflow and whose exponential, logarithm and square root are the
//! saturating base-two power, the floor base-two logarithm and the floor
//! square root.

use vstd::prelude::*;

verus! {

/// A scalar: the element type of tensors.
///
/// Each executable operation returns exactly the value of its specification
/// function, so scalar arithmetic is deterministic and the engine's
/// contracts can speak about results elementwise.
pub trait Scalar: Sized + Copy {
    /// The additive identity.
    spec fn sp_zero() -> Self;

    /// The multiplicative identity.
    spec fn sp_one() -> Self;

    /// The scalar standing for a small natural number.
    spec fn sp_from_u64(n: u64) -> Self;

    spec fn sp_add(self, rhs: Self) -> Self;

    spec fn sp_sub(self, rhs: Self) -> Self;

    spec fn sp_mul(self, rhs: Self) -> Self;

    /// Division; total, with the implementation choosing the value on a zero
    /// divisor.
    spec fn sp_div(self, rhs: Self) -> Self;

    spec fn sp_neg(self) -> Self;

    /// The implementation's exponential map.
    spec fn sp_exp(self) -> Self;

    /// The implementation's logarithm; total.
    spec fn sp_ln(self) -> Self;

    /// The implementation's square root; total.
    spec fn sp_sqrt(self) -> Self;

    /// The implementation's strict order.
    spec fn sp_lt(self, rhs: Self) -> bool;

    fn zero() -> (r: Self)
        ensures
            r == Self::sp_zero();

    fn one() -> (r: Self)
        ensures
            r == Self::sp_one();

    fn from_u64(n: u64) -> (r: Self)
        ensures
            r == Self::sp_from_u64(n);

    fn add(self, rhs: Self) -> (r: Self)
        ensures
            r == self.sp_add(rhs);

    fn sub(self, rhs: Self) -> (r: Self)
        ensures
            r == self.sp_sub(rhs);

    fn mul(self, rhs: Self) -> (r: Self)
        ensures
            r == self.sp_mul(rhs);

    fn div(self, rhs: Self) -> (r: Self)
        ensures
            r == self.sp_div(rhs);

    fn neg(self) -> (r: Self)
        ensures
            r == self.sp_neg();

    fn exp(self) -> (r: Self)
        ensures
            r == self.sp_exp();

    fn ln(self) -> (r: Self)
        ensures
            r == self.sp_ln();

    fn sqrt(self) -> (r: Self)
        ensures
            r == self.sp_sqrt();

    fn lt(self, rhs: Self) -> (r: bool)
        ensures
            r == self.sp_lt(rhs);
}

/// Truncated `i64` division, wrapping like `i64::checked_div` except that a
/// zero divisor yields zero and the one overflowing case wraps to `i64::MIN`.
pub open spec fn i64_div_total(a: i64, b: i64) -> i64 {
    if b == 0 {
        0
    } else {
        let x = a as int;
        let d = b as int;
        let q = if x == 0 {
            0int
        } else if x > 0 && d > 0 {
            x / d
        } else if x < 0 && d < 0 {
            (x * -1) / (d * -1)
        } else if x < 0 {
            ((x * -1) / d) * -1
        } else {
            (x / (d * -1)) * -1
        };
        if q < i64::MIN || q > i64::MAX {
            i64::MIN
        } else {
            q as i64
        }
    }
}

/// The floor base-two logarithm, zero at and below one.
pub open spec fn int_log2(a: int) -> int
    decreases a,
{
    if a <= 1 {
        0
    } else {
        1 + int_log2(a / 2)
    }
}

/// The floor square root, zero below one.
pub open spec fn int_sqrt(a: int) -> int
    decreases a,
{
    if a < 1 {
        0
    } else {
        let r = int_sqrt(a - 1);
        if (r + 1) * (r + 1) <= a {
            r + 1
        } else {
            r
        }
    }
}

/// The floor square root is the unique non-negative `r` with
/// `r * r <= a < (r + 1) * (r + 1)`.
pub proof fn lemma_int_sqrt_bounds(a: int)
    requires
        a >= 0,
    ensures
        0 <= int_sqrt(a),
        int_sqrt(a) * int_sqrt(a) <= a,
        a < (int_sqrt(a) + 1) * (int_sqrt(a) + 1),
    decreases a,
{
    if a < 1 {
    } else {
        lemma_int_sqrt_bounds(a - 1);
        let r = int_sqrt(a - 1);
        if (r + 1) * (r + 1) <= a {
            assert(int_sqrt(a) == r + 1);
            assert(a < ((r + 1) + 1) * ((r + 1) + 1)) by(nonlinear_arith)
                requires
                    a - 1 < (r + 1) * (r + 1),
                    0 <= r;
        } else {
            assert(int_sqrt(a) == r);
        }
    }
}

impl Scalar for i64 {
    open spec fn sp_zero() -> i64 {
        0
    }

    open spec fn sp_one() -> i64 {
        1
    }

    open spec fn sp_from_u64(n: u64) -> i64 {
        n as i64
    }

    open spec fn sp_add(self, rhs: i64) -> i64 {
        self.wrapping_add(rhs)
    }

    open spec fn sp_sub(self, rhs: i64) -> i64 {
        self.wrapping_sub(rhs)
    }

    open spec fn sp_mul(self, rhs: i64) -> i64 {
        self.wrapping_mul(rhs)
    }

    open spec fn sp_div(self, rhs: i64) -> i64 {
        i64_div_total(self, rhs)
    }

    open spec fn sp_neg(self) -> i64 {
        (0i64).wrapping_sub(self)
    }

    /// Saturating base-two power: `2^self` for small non-negative `self`.
    open spec fn sp_exp(self) -> i64 {
        if self < 0 {
            0
        } else if self >= 63 {
            i64::MAX
        } else {
            (1i64).wrapping_shl(self as u32)
        }
    }

    open spec fn sp_ln(self) -> i64 {
        if self <= 1 {
            0
        } else {
            int_log2(self as int) as i64
        }
    }

    open spec fn sp_sqrt(self) -> i64 {
        if self < 1 {
            0
        } else {
            int_sqrt(self as int) as i64
        }
    }

    open spec fn sp_lt(self, rhs: i64) -> bool {
        self < rhs
    }

    fn zero() -> i64 {
        0
    }

    fn one() -> i64 {
        1
    }

    fn from_u64(n: u64) -> i64 {
        n as i64
    }

    fn add(self, rhs: i64) -> i64 {
        self.wrapping_add(rhs)
    }

    fn sub(self, rhs: i64) -> i64 {
        self.wrapping_sub(rhs)
    }

    fn mul(self, rhs: i64) -> i64 {
        self.wrapping_mul(rhs)
    }

    fn div(self, rhs: i64) -> (r: i64) {
        if rhs == 0 {
            0
        } else {
            match self.checked_div(rhs) {
                Some(q) => q,
                None => i64::MIN,
            }
        }
    }

    fn neg(self) -> i64 {
        (0i64).wrapping_sub(self)
    }

    fn exp(self) -> i64 {
        if self < 0 {
            0
        } else if self >= 63 {
            i64::MAX
        } else {
            (1i64).wrapping_shl(self as u32)
        }
    }

    fn ln(self) -> (r: i64) {
        if self <= 1 {
            return 0;
        }
        proof {
            lemma_int_log2_le(self as int);
        }
        let mut v: u64 = self as u64;
        let mut r: i64 = 0;
        while v > 1
            invariant
                1 <= v <= self as u64,
                self > 1,
                0 <= r,
                r + int_log2(v as int) == int_log2(self as int),
                int_log2(self as int) <= self as int - 1,
            decreases v,
        {
            proof {
                lemma_int_log2_nonneg(v as int / 2);
            }
            v = v / 2;
            r = r + 1;
        }
        r
    }

    fn sqrt(self) -> (r: i64) {
        if self < 1 {
            return 0;
        }
        let x: u64 = self as u64;
        let mut r: u64 = 0;
        loop
            invariant
                (r as int) * (r as int) <= x as int,
                x == self as u64,
                self >= 1,
                r <= x,
            ensures
                (r as int) * (r as int) <= x as int,
                (x as int) < (r as int + 1) * (r as int + 1),
            decreases x - r,
        {
            proof {
                assert((r as int) < 0x1_0000_0000) by(nonlinear_arith)
                    requires
                        (r as int) * (r as int) <= x as int,
                        (x as int) < 0x8000_0000_0000_0000,
                        0 <= r as int;
                assert(((r as int) + 1) * ((r as int) + 1) <= 0x1_0000_0000_0000_0000int)
                    by(nonlinear_arith)
                    requires
                        0 <= r as int && (r as int) < 0x1_0000_0000;
            }
            let next = ((r as u128) + 1) * ((r as u128) + 1);
            if next <= x as u128 {
                proof {
                    assert(r < x) by(nonlinear_arith)
                        requires
                            ((r as int) + 1) * ((r as int) + 1) <= x as int,
                            r >= 0;
                }
                r = r + 1;
            } else {
                break;
            }
        }
        proof {
            lemma_int_sqrt_bounds(self as int);
            let s = int_sqrt(self as int);
            assert(r as int == s) by(nonlinear_arith)
                requires
                    0 <= s,
                    s * s <= self as int,
                    (self as int) < (s + 1) * (s + 1),
                    0 <= r as int,
                    (r as int) * (r as int) <= self as int,
                    (self as int) < (r as int + 1) * (r as int + 1);
        }
        r as i64
    }

    fn lt(self, rhs: i64) -> bool {
        self < rhs
    }
}

/// The floor base-two logarithm is never negative.
pub proof fn lemma_int_log2_nonneg(a: int)
    ensures
        int_log2(a) >= 0,
    decreases a,
{
    if a > 1 {
        lemma_int_log2_nonneg(a / 2);
    }
}

/// The floor base-two logarithm is bounded by its argument.
pub proof fn lemma_int_log2_le(a: int)
    requires
        a >= 1,
    ensures
        int_log2(a) <= a - 1,
    decreases a,
{
    if a > 1 {
        lemma_int_log2_le(a / 2);
    }
}

} // verus!
