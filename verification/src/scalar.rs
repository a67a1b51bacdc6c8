//! Exact rational scalars.
//!
//! Every coordinate, offset and parameter of the kernel is a `Scalar`: a
//! fraction of two arbitrary-precision integers with a positive denominator.
//! Arithmetic is exact, so equal inputs give bit-for-bit equal results, which
//! is what the region code relies on when it intersects the same pair of
//! lines from two call sites.
//!
//! A `Scalar`'s view is the mathematical fraction `RatV`; the spec functions
//! `rat_add`, `rat_mul`, ... mirror the executable operations exactly, and
//! `rat_lt`/`rat_eqv` compare fractions as values (by cross-multiplication).

use vstd::prelude::*;
use num_bigint::BigInt;
use crate::bignum::{int_of, big_from_i64, big_add, big_sub, big_mul, big_neg, big_lt, big_eq,
    big_clone};

verus! {

/// A fraction of mathematical integers: numerator and denominator.
pub struct RatV {
    pub n: int,
    pub d: int,
}

/// A fraction is well formed when its denominator is positive.
pub open spec fn rat_wf(a: RatV) -> bool {
    a.d > 0
}

/// Value order on well-formed fractions: `a.n/a.d < b.n/b.d`.
pub open spec fn rat_lt(a: RatV, b: RatV) -> bool {
    a.n * b.d < b.n * a.d
}

/// Value order, non-strict.
pub open spec fn rat_le(a: RatV, b: RatV) -> bool {
    a.n * b.d <= b.n * a.d
}

/// Value equality of well-formed fractions.
pub open spec fn rat_eqv(a: RatV, b: RatV) -> bool {
    a.n * b.d == b.n * a.d
}

/// The fraction is the value zero.
pub open spec fn rat_is_zero(a: RatV) -> bool {
    a.n == 0
}

/// The fraction is a negative value.
pub open spec fn rat_is_neg(a: RatV) -> bool {
    a.n < 0
}

/// The fraction is a positive value.
pub open spec fn rat_is_pos(a: RatV) -> bool {
    a.n > 0
}

pub open spec fn rat_of_int(v: int) -> RatV {
    RatV { n: v, d: 1 }
}

/// Sign-normalized fraction `n/d` for a nonzero `d`.
pub open spec fn rat_of_ratio(n: int, d: int) -> RatV {
    if d > 0 {
        RatV { n: n, d: d }
    } else {
        RatV { n: -n, d: -d }
    }
}

pub open spec fn rat_add(a: RatV, b: RatV) -> RatV {
    RatV { n: a.n * b.d + b.n * a.d, d: a.d * b.d }
}

pub open spec fn rat_sub(a: RatV, b: RatV) -> RatV {
    RatV { n: a.n * b.d - b.n * a.d, d: a.d * b.d }
}

pub open spec fn rat_mul(a: RatV, b: RatV) -> RatV {
    RatV { n: a.n * b.n, d: a.d * b.d }
}

pub open spec fn rat_neg(a: RatV) -> RatV {
    RatV { n: -a.n, d: a.d }
}

/// Division, sign-normalized so the result's denominator is positive.
/// Meaningful only for a divisor `b` that is not the value zero.
pub open spec fn rat_div(a: RatV, b: RatV) -> RatV {
    let n0 = a.n * b.d;
    let d0 = a.d * b.n;
    if d0 < 0 {
        RatV { n: -n0, d: -d0 }
    } else {
        RatV { n: n0, d: d0 }
    }
}

/// An exact rational number: a fraction of two big integers with a
/// positive denominator.
pub struct Scalar {
    num: BigInt,
    den: BigInt,
}

impl View for Scalar {
    type V = RatV;

    closed spec fn view(&self) -> RatV {
        RatV { n: int_of(self.num), d: int_of(self.den) }
    }
}

impl Scalar {
    #[verifier::type_invariant]
    pub open spec fn type_inv(self) -> bool {
        rat_wf(self@)
    }

    /// The whole number `v`.
    pub fn from_int(v: i64) -> (r: Scalar)
        ensures
            r@ == rat_of_int(v as int),
    {
        Scalar { num: big_from_i64(v), den: big_from_i64(1) }
    }

    /// The fraction `n / d`.
    pub fn from_ratio(n: i64, d: i64) -> (r: Scalar)
        requires
            d != 0,
        ensures
            r@ == rat_of_ratio(n as int, d as int),
    {
        let num = big_from_i64(n);
        let den = big_from_i64(d);
        if d > 0 {
            Scalar { num, den }
        } else {
            Scalar { num: big_neg(&num), den: big_neg(&den) }
        }
    }

    /// An exact copy.
    pub fn dup(&self) -> (r: Scalar)
        ensures
            r@ == self@,
    {
        proof {
            use_type_invariant(self);
        }
        Scalar { num: big_clone(&self.num), den: big_clone(&self.den) }
    }

    pub fn add(&self, other: &Scalar) -> (r: Scalar)
        ensures
            r@ == rat_add(self@, other@),
    {
        proof {
            use_type_invariant(self);
            use_type_invariant(other);
            lemma_pos_mul(self@.d, other@.d);
        }
        Scalar {
            num: big_add(&big_mul(&self.num, &other.den), &big_mul(&other.num, &self.den)),
            den: big_mul(&self.den, &other.den),
        }
    }

    pub fn sub(&self, other: &Scalar) -> (r: Scalar)
        ensures
            r@ == rat_sub(self@, other@),
    {
        proof {
            use_type_invariant(self);
            use_type_invariant(other);
            lemma_pos_mul(self@.d, other@.d);
        }
        Scalar {
            num: big_sub(&big_mul(&self.num, &other.den), &big_mul(&other.num, &self.den)),
            den: big_mul(&self.den, &other.den),
        }
    }

    pub fn mul(&self, other: &Scalar) -> (r: Scalar)
        ensures
            r@ == rat_mul(self@, other@),
    {
        proof {
            use_type_invariant(self);
            use_type_invariant(other);
            lemma_pos_mul(self@.d, other@.d);
        }
        Scalar {
            num: big_mul(&self.num, &other.num),
            den: big_mul(&self.den, &other.den),
        }
    }

    pub fn neg(&self) -> (r: Scalar)
        ensures
            r@ == rat_neg(self@),
    {
        proof {
            use_type_invariant(self);
        }
        Scalar { num: big_neg(&self.num), den: big_clone(&self.den) }
    }

    pub fn div(&self, other: &Scalar) -> (r: Scalar)
        requires
            !rat_is_zero(other@),
        ensures
            r@ == rat_div(self@, other@),
    {
        proof {
            use_type_invariant(self);
            use_type_invariant(other);
            lemma_nonzero_mul(self@.d, other@.n);
        }
        let num = big_mul(&self.num, &other.den);
        let den = big_mul(&self.den, &other.num);
        let zero = big_from_i64(0);
        if big_lt(&den, &zero) {
            Scalar { num: big_neg(&num), den: big_neg(&den) }
        } else {
            Scalar { num, den }
        }
    }

    /// Strict value order.
    pub fn lt(&self, other: &Scalar) -> (r: bool)
        ensures
            r == rat_lt(self@, other@),
    {
        big_lt(&big_mul(&self.num, &other.den), &big_mul(&other.num, &self.den))
    }

    /// Non-strict value order.
    pub fn le(&self, other: &Scalar) -> (r: bool)
        ensures
            r == rat_le(self@, other@),
    {
        !big_lt(&big_mul(&other.num, &self.den), &big_mul(&self.num, &other.den))
    }

    /// Value equality.
    pub fn eq_val(&self, other: &Scalar) -> (r: bool)
        ensures
            r == rat_eqv(self@, other@),
    {
        big_eq(&big_mul(&self.num, &other.den), &big_mul(&other.num, &self.den))
    }

    pub fn is_zero(&self) -> (r: bool)
        ensures
            r == rat_is_zero(self@),
    {
        big_eq(&self.num, &big_from_i64(0))
    }

    pub fn is_neg(&self) -> (r: bool)
        ensures
            r == rat_is_neg(self@),
    {
        big_lt(&self.num, &big_from_i64(0))
    }

    pub fn is_pos(&self) -> (r: bool)
        ensures
            r == rat_is_pos(self@),
    {
        big_lt(&big_from_i64(0), &self.num)
    }
}

proof fn lemma_pos_mul(a: int, b: int)
    by (nonlinear_arith)
    requires
        a > 0,
        b > 0,
    ensures
        a * b > 0,
{
}

proof fn lemma_nonzero_mul(a: int, b: int)
    by (nonlinear_arith)
    requires
        a > 0,
        b != 0,
    ensures
        a * b != 0,
{
}

} // verus!
