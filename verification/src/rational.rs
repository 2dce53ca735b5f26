//! Exact fractions over `BigInt`, and their ghost model.
//!
//! A `Rational` is an unreduced fraction with a positive denominator.  Its
//! ghost counterpart `Rat` is a pair of mathematical integers, and every
//! executable operation mirrors a ghost operation exactly, so the contract of
//! each metric pins down the full computation.

use vstd::prelude::*;
use crate::bigint::{big_view, big_add, big_sub, big_mul, big_lt, big_eq, big_clone, big_from_u64, big_shl};

verus! {

/// Ghost fraction: the value `n / d`.  Operations keep fractions unreduced,
/// so equality of values is `rat_eq`, not structural equality.
pub ghost struct Rat {
    pub n: int,
    pub d: int,
}

pub open spec fn rat(n: int, d: int) -> Rat {
    Rat { n, d }
}

pub open spec fn rat_wf(x: Rat) -> bool {
    x.d > 0
}

pub open spec fn rat_add(a: Rat, b: Rat) -> Rat {
    Rat { n: a.n * b.d + b.n * a.d, d: a.d * b.d }
}

pub open spec fn rat_sub(a: Rat, b: Rat) -> Rat {
    Rat { n: a.n * b.d - b.n * a.d, d: a.d * b.d }
}

pub open spec fn rat_mul(a: Rat, b: Rat) -> Rat {
    Rat { n: a.n * b.n, d: a.d * b.d }
}

/// Division, with the sign moved into the numerator so that the result is
/// well formed whenever `b.n != 0`.
pub open spec fn rat_div(a: Rat, b: Rat) -> Rat {
    if b.n >= 0 {
        Rat { n: a.n * b.d, d: a.d * b.n }
    } else {
        Rat { n: -(a.n * b.d), d: a.d * -b.n }
    }
}

pub open spec fn rat_neg(a: Rat) -> Rat {
    Rat { n: -a.n, d: a.d }
}

pub open spec fn rat_abs(a: Rat) -> Rat {
    if a.n < 0 {
        rat_neg(a)
    } else {
        a
    }
}

/// Value order on well-formed fractions.
pub open spec fn rat_lt(a: Rat, b: Rat) -> bool {
    a.n * b.d < b.n * a.d
}

/// Value equality on well-formed fractions.
pub open spec fn rat_eq(a: Rat, b: Rat) -> bool {
    a.n * b.d == b.n * a.d
}

pub proof fn lemma_pos_mul(a: int, b: int)
    requires
        a > 0,
        b > 0,
    ensures
        a * b > 0,
{
    assert(a * b > 0) by (nonlinear_arith)
        requires
            a > 0,
            b > 0,
    ;
}

/// Exact fraction with a positive denominator.
pub struct Rational {
    pub num: num_bigint::BigInt,
    pub den: num_bigint::BigInt,
}

impl View for Rational {
    type V = Rat;

    open spec fn view(&self) -> Rat {
        Rat { n: big_view(self.num), d: big_view(self.den) }
    }
}

impl Rational {
    pub open spec fn wf(&self) -> bool {
        rat_wf(self@)
    }

    pub fn from_u64(x: u64) -> (r: Self)
        ensures
            r.wf(),
            r@ == rat(x as int, 1),
    {
        Rational { num: big_from_u64(x), den: big_from_u64(1) }
    }

    /// The fraction `mant * 2^exp` for `exp >= 0`, or `mant / 2^(-exp)` below
    /// zero; this is how callers hand in dyadic values exactly.
    pub fn from_dyadic(neg: bool, mant: u64, exp: i32) -> (r: Self)
        ensures
            r.wf(),
            exp >= 0 ==> r@ == (if neg {
                rat(-(mant * pow2_int(exp as nat)), 1)
            } else {
                rat(mant * pow2_int(exp as nat), 1)
            }),
            exp < 0 ==> r@ == (if neg {
                rat(-(mant as int), pow2_int((-exp) as nat))
            } else {
                rat(mant as int, pow2_int((-exp) as nat))
            }),
    {
        let m = big_from_u64(mant);
        let one = big_from_u64(1);
        let zero = big_from_u64(0);
        if exp >= 0 {
            let n = big_shl(&m, exp as usize);
            let n2 = if neg { big_sub(&zero, &n) } else { n };
            Rational { num: n2, den: one }
        } else {
            let d = big_shl(&one, (-(exp as i64)) as usize);
            proof {
                vstd::arithmetic::power2::lemma_pow2_pos((-exp) as nat);
            }
            let n2 = if neg { big_sub(&zero, &m) } else { m };
            Rational { num: n2, den: d }
        }
    }

    /// The fraction `1 / x`.
    pub fn recip_of_u64(x: u64) -> (r: Self)
        requires
            x > 0,
        ensures
            r.wf(),
            r@ == rat(1, x as int),
    {
        Rational { num: big_from_u64(1), den: big_from_u64(x) }
    }

    pub fn dup(&self) -> (r: Self)
        ensures
            r@ == self@,
    {
        Rational { num: big_clone(&self.num), den: big_clone(&self.den) }
    }

    pub fn add(&self, o: &Self) -> (r: Self)
        requires
            self.wf(),
            o.wf(),
        ensures
            r.wf(),
            r@ == rat_add(self@, o@),
    {
        let l = big_mul(&self.num, &o.den);
        let rr = big_mul(&o.num, &self.den);
        proof {
            lemma_pos_mul(big_view(self.den), big_view(o.den));
        }
        Rational { num: big_add(&l, &rr), den: big_mul(&self.den, &o.den) }
    }

    pub fn sub(&self, o: &Self) -> (r: Self)
        requires
            self.wf(),
            o.wf(),
        ensures
            r.wf(),
            r@ == rat_sub(self@, o@),
    {
        let l = big_mul(&self.num, &o.den);
        let rr = big_mul(&o.num, &self.den);
        proof {
            lemma_pos_mul(big_view(self.den), big_view(o.den));
        }
        Rational { num: big_sub(&l, &rr), den: big_mul(&self.den, &o.den) }
    }

    pub fn mul(&self, o: &Self) -> (r: Self)
        requires
            self.wf(),
            o.wf(),
        ensures
            r.wf(),
            r@ == rat_mul(self@, o@),
    {
        proof {
            lemma_pos_mul(big_view(self.den), big_view(o.den));
        }
        Rational { num: big_mul(&self.num, &o.num), den: big_mul(&self.den, &o.den) }
    }

    pub fn div(&self, o: &Self) -> (r: Self)
        requires
            self.wf(),
            o.wf(),
            o@.n != 0,
        ensures
            r.wf(),
            r@ == rat_div(self@, o@),
    {
        let zero = big_from_u64(0);
        let n = big_mul(&self.num, &o.den);
        if big_lt(&o.num, &zero) {
            proof {
                lemma_pos_mul(big_view(self.den), -big_view(o.num));
            }
            Rational {
                num: big_sub(&zero, &n),
                den: big_mul(&self.den, &big_sub(&zero, &o.num)),
            }
        } else {
            proof {
                lemma_pos_mul(big_view(self.den), big_view(o.num));
            }
            Rational { num: n, den: big_mul(&self.den, &o.num) }
        }
    }

    pub fn neg(&self) -> (r: Self)
        requires
            self.wf(),
        ensures
            r.wf(),
            r@ == rat_neg(self@),
    {
        let zero = big_from_u64(0);
        Rational { num: big_sub(&zero, &self.num), den: big_clone(&self.den) }
    }

    pub fn abs(&self) -> (r: Self)
        requires
            self.wf(),
        ensures
            r.wf(),
            r@ == rat_abs(self@),
    {
        let zero = big_from_u64(0);
        if big_lt(&self.num, &zero) {
            self.neg()
        } else {
            self.dup()
        }
    }

    pub fn lt(&self, o: &Self) -> (r: bool)
        requires
            self.wf(),
            o.wf(),
        ensures
            r == rat_lt(self@, o@),
    {
        big_lt(&big_mul(&self.num, &o.den), &big_mul(&o.num, &self.den))
    }

    pub fn is_zero(&self) -> (r: bool)
        ensures
            r == (self@.n == 0),
    {
        let zero = big_from_u64(0);
        big_eq(&self.num, &zero)
    }

    pub fn is_neg(&self) -> (r: bool)
        ensures
            r == (self@.n < 0),
    {
        let zero = big_from_u64(0);
        big_lt(&self.num, &zero)
    }
}

/// `pow2` as an `int`, to keep contracts over plain integer arithmetic.
pub open spec fn pow2_int(e: nat) -> int {
    vstd::arithmetic::power2::pow2(e) as int
}

} // verus!
