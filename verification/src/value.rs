//! Extended numeric values: exact fractions together with the three
//! degenerate outcomes of unguarded arithmetic.
//!
//! The catalog deliberately performs no guarding, so division by zero, the
//! logarithm of a non-positive value and similar cases must propagate as
//! infinities or as the not-a-number marker, the way double-precision
//! arithmetic propagates them.  `Number` carries those outcomes explicitly;
//! the ghost enum `Val` mirrors it, and every operation's contract is an
//! exact equation between the two.  (There is no negative zero here: an exact
//! zero is unsigned, so an expression whose double-precision counterpart
//! divides by a negative zero comes out with the opposite infinity.)

use vstd::prelude::*;
use crate::rational::{Rat, Rational, rat, rat_add, rat_mul, rat_div, rat_neg, rat_abs, rat_lt, rat_wf, pow2_int};

verus! {

/// Ghost extended value.
pub ghost enum Val {
    Fin(Rat),
    PInf,
    NInf,
    Nan,
}

pub open spec fn v_wf(a: Val) -> bool {
    match a {
        Val::Fin(x) => rat_wf(x),
        _ => true,
    }
}

pub open spec fn v_zero() -> Val {
    Val::Fin(rat(0, 1))
}

pub open spec fn v_one() -> Val {
    Val::Fin(rat(1, 1))
}

pub open spec fn v_add(a: Val, b: Val) -> Val {
    match (a, b) {
        (Val::Nan, _) => Val::Nan,
        (_, Val::Nan) => Val::Nan,
        (Val::PInf, Val::NInf) => Val::Nan,
        (Val::NInf, Val::PInf) => Val::Nan,
        (Val::PInf, _) => Val::PInf,
        (_, Val::PInf) => Val::PInf,
        (Val::NInf, _) => Val::NInf,
        (_, Val::NInf) => Val::NInf,
        (Val::Fin(x), Val::Fin(y)) => Val::Fin(rat_add(x, y)),
    }
}

pub open spec fn v_sub(a: Val, b: Val) -> Val {
    v_add(a, v_neg(b))
}

pub open spec fn v_neg(a: Val) -> Val {
    match a {
        Val::Nan => Val::Nan,
        Val::PInf => Val::NInf,
        Val::NInf => Val::PInf,
        Val::Fin(x) => Val::Fin(rat_neg(x)),
    }
}

pub open spec fn v_abs(a: Val) -> Val {
    match a {
        Val::Nan => Val::Nan,
        Val::PInf => Val::PInf,
        Val::NInf => Val::PInf,
        Val::Fin(x) => Val::Fin(rat_abs(x)),
    }
}

/// Sign of a non-`Nan` value: -1, 0 or 1.
pub open spec fn v_sign(a: Val) -> int {
    match a {
        Val::PInf => 1,
        Val::NInf => -1,
        Val::Fin(x) => if x.n > 0 { 1 } else if x.n < 0 { -1 } else { 0 },
        Val::Nan => 0,
    }
}

pub open spec fn v_mul(a: Val, b: Val) -> Val {
    match (a, b) {
        (Val::Nan, _) => Val::Nan,
        (_, Val::Nan) => Val::Nan,
        (Val::Fin(x), Val::Fin(y)) => Val::Fin(rat_mul(x, y)),
        _ => if v_sign(a) == 0 || v_sign(b) == 0 {
            Val::Nan
        } else if v_sign(a) * v_sign(b) > 0 {
            Val::PInf
        } else {
            Val::NInf
        },
    }
}

pub open spec fn v_div(a: Val, b: Val) -> Val {
    match (a, b) {
        (Val::Nan, _) => Val::Nan,
        (_, Val::Nan) => Val::Nan,
        (Val::Fin(x), Val::Fin(y)) => if y.n != 0 {
            Val::Fin(rat_div(x, y))
        } else if x.n == 0 {
            Val::Nan
        } else if x.n > 0 {
            Val::PInf
        } else {
            Val::NInf
        },
        (Val::Fin(x), _) => v_zero(),
        (_, Val::Fin(y)) => if v_sign(a) * (if y.n < 0 { -1int } else { 1int }) > 0 {
            Val::PInf
        } else {
            Val::NInf
        },
        _ => Val::Nan,
    }
}

/// Order on non-`Nan` values; never used under a `Nan`.
pub open spec fn v_lt(a: Val, b: Val) -> bool {
    match (a, b) {
        (Val::NInf, Val::NInf) => false,
        (Val::NInf, _) => true,
        (_, Val::NInf) => false,
        (Val::PInf, _) => false,
        (_, Val::PInf) => true,
        (Val::Fin(x), Val::Fin(y)) => rat_lt(x, y),
        _ => false,
    }
}

/// The larger argument, ignoring `Nan`, as `f64::max` does.
pub open spec fn v_max(a: Val, b: Val) -> Val {
    match (a, b) {
        (Val::Nan, _) => b,
        (_, Val::Nan) => a,
        _ => if v_lt(a, b) { b } else { a },
    }
}

/// The smaller argument, ignoring `Nan`, as `f64::min` does.
pub open spec fn v_min(a: Val, b: Val) -> Val {
    match (a, b) {
        (Val::Nan, _) => b,
        (_, Val::Nan) => a,
        _ => if v_lt(b, a) { b } else { a },
    }
}

/// Extended numeric value: an exact fraction, an infinity, or the
/// not-a-number marker.
pub enum Number {
    Finite(Rational),
    PosInf,
    NegInf,
    NaN,
}

impl View for Number {
    type V = Val;

    open spec fn view(&self) -> Val {
        match self {
            Number::Finite(x) => Val::Fin(x@),
            Number::PosInf => Val::PInf,
            Number::NegInf => Val::NInf,
            Number::NaN => Val::Nan,
        }
    }
}

impl Number {
    pub open spec fn wf(&self) -> bool {
        v_wf(self@)
    }

    pub fn from_u64(x: u64) -> (r: Self)
        ensures
            r.wf(),
            r@ == Val::Fin(rat(x as int, 1)),
    {
        Number::Finite(Rational::from_u64(x))
    }

    /// The exact value `(-1)^neg * mant * 2^exp`: how callers hand in a
    /// double-precision value without loss.
    pub fn from_dyadic(neg: bool, mant: u64, exp: i32) -> (r: Self)
        ensures
            r.wf(),
            exp >= 0 ==> r@ == Val::Fin(
                rat(
                    if neg {
                        -(mant * pow2_int(exp as nat))
                    } else {
                        mant * pow2_int(exp as nat)
                    },
                    1,
                ),
            ),
            exp < 0 ==> r@ == Val::Fin(
                rat(if neg { -(mant as int) } else { mant as int }, pow2_int((-exp) as nat)),
            ),
    {
        Number::Finite(Rational::from_dyadic(neg, mant, exp))
    }

    pub fn nan() -> (r: Self)
        ensures
            r.wf(),
            r@ == Val::Nan,
    {
        Number::NaN
    }

    pub fn pos_inf() -> (r: Self)
        ensures
            r.wf(),
            r@ == Val::PInf,
    {
        Number::PosInf
    }

    pub fn neg_inf() -> (r: Self)
        ensures
            r.wf(),
            r@ == Val::NInf,
    {
        Number::NegInf
    }

    pub fn dup(&self) -> (r: Self)
        ensures
            r@ == self@,
    {
        match self {
            Number::Finite(x) => Number::Finite(x.dup()),
            Number::PosInf => Number::PosInf,
            Number::NegInf => Number::NegInf,
            Number::NaN => Number::NaN,
        }
    }

    pub fn is_nan(&self) -> (r: bool)
        ensures
            r == (self@ is Nan),
    {
        matches!(self, Number::NaN)
    }

    pub fn is_pos_inf(&self) -> (r: bool)
        ensures
            r == (self@ is PInf),
    {
        matches!(self, Number::PosInf)
    }

    pub fn is_neg_inf(&self) -> (r: bool)
        ensures
            r == (self@ is NInf),
    {
        matches!(self, Number::NegInf)
    }

    pub fn is_finite(&self) -> (r: bool)
        ensures
            r == (self@ is Fin),
    {
        matches!(self, Number::Finite(_))
    }

    /// The numerator and denominator of a finite value, for callers that
    /// round the exact fraction into their own numeric type.
    pub fn parts(&self) -> (r: Option<(num_bigint::BigInt, num_bigint::BigInt)>)
        ensures
            (self@ is Fin) <==> (r is Some),
            r is Some ==> {
                let x = r.unwrap();
                self@ == Val::Fin(rat(crate::bigint::big_view(x.0), crate::bigint::big_view(x.1)))
            },
    {
        match self {
            Number::Finite(x) => Some((crate::bigint::big_clone(&x.num), crate::bigint::big_clone(&x.den))),
            _ => None,
        }
    }

    pub(crate) fn sign(&self) -> (r: i32)
        requires
            self.wf(),
        ensures
            r == v_sign(self@),
            r == -1 || r == 0 || r == 1,
    {
        match self {
            Number::PosInf => 1,
            Number::NegInf => -1,
            Number::NaN => 0,
            Number::Finite(x) => {
                if x.is_neg() {
                    -1
                } else if x.is_zero() {
                    0
                } else {
                    1
                }
            },
        }
    }

    pub fn add(&self, o: &Self) -> (r: Self)
        requires
            self.wf(),
            o.wf(),
        ensures
            r.wf(),
            r@ == v_add(self@, o@),
    {
        match (self, o) {
            (Number::NaN, _) => Number::NaN,
            (_, Number::NaN) => Number::NaN,
            (Number::PosInf, Number::NegInf) => Number::NaN,
            (Number::NegInf, Number::PosInf) => Number::NaN,
            (Number::PosInf, _) => Number::PosInf,
            (_, Number::PosInf) => Number::PosInf,
            (Number::NegInf, _) => Number::NegInf,
            (_, Number::NegInf) => Number::NegInf,
            (Number::Finite(x), Number::Finite(y)) => Number::Finite(x.add(y)),
        }
    }

    pub fn sub(&self, o: &Self) -> (r: Self)
        requires
            self.wf(),
            o.wf(),
        ensures
            r.wf(),
            r@ == v_sub(self@, o@),
    {
        self.add(&o.neg())
    }

    pub fn neg(&self) -> (r: Self)
        requires
            self.wf(),
        ensures
            r.wf(),
            r@ == v_neg(self@),
    {
        match self {
            Number::NaN => Number::NaN,
            Number::PosInf => Number::NegInf,
            Number::NegInf => Number::PosInf,
            Number::Finite(x) => Number::Finite(x.neg()),
        }
    }

    pub fn abs(&self) -> (r: Self)
        requires
            self.wf(),
        ensures
            r.wf(),
            r@ == v_abs(self@),
    {
        match self {
            Number::NaN => Number::NaN,
            Number::PosInf => Number::PosInf,
            Number::NegInf => Number::PosInf,
            Number::Finite(x) => Number::Finite(x.abs()),
        }
    }

    pub fn mul(&self, o: &Self) -> (r: Self)
        requires
            self.wf(),
            o.wf(),
        ensures
            r.wf(),
            r@ == v_mul(self@, o@),
    {
        match (self, o) {
            (Number::NaN, _) => Number::NaN,
            (_, Number::NaN) => Number::NaN,
            (Number::Finite(x), Number::Finite(y)) => Number::Finite(x.mul(y)),
            _ => {
                let sa = self.sign();
                let sb = o.sign();
                if sa == 0 || sb == 0 {
                    Number::NaN
                } else if sa == sb {
                    Number::PosInf
                } else {
                    Number::NegInf
                }
            },
        }
    }

    pub fn div(&self, o: &Self) -> (r: Self)
        requires
            self.wf(),
            o.wf(),
        ensures
            r.wf(),
            r@ == v_div(self@, o@),
    {
        match (self, o) {
            (Number::NaN, _) => Number::NaN,
            (_, Number::NaN) => Number::NaN,
            (Number::Finite(x), Number::Finite(y)) => {
                if !y.is_zero() {
                    Number::Finite(x.div(y))
                } else if x.is_zero() {
                    Number::NaN
                } else if x.is_neg() {
                    Number::NegInf
                } else {
                    Number::PosInf
                }
            },
            (Number::Finite(x), _) => Number::from_u64(0),
            (_, Number::Finite(y)) => {
                let sa = self.sign();
                let flip = y.is_neg();
                if (sa == 1) != flip {
                    Number::PosInf
                } else {
                    Number::NegInf
                }
            },
            _ => Number::NaN,
        }
    }

    pub(crate) fn less(&self, o: &Self) -> (r: bool)
        requires
            self.wf(),
            o.wf(),
            !(self@ is Nan),
            !(o@ is Nan),
        ensures
            r == v_lt(self@, o@),
    {
        match (self, o) {
            (Number::NegInf, Number::NegInf) => false,
            (Number::NegInf, _) => true,
            (_, Number::NegInf) => false,
            (Number::PosInf, _) => false,
            (_, Number::PosInf) => true,
            (Number::Finite(x), Number::Finite(y)) => x.lt(y),
            _ => false,
        }
    }

    pub fn max(&self, o: &Self) -> (r: Self)
        requires
            self.wf(),
            o.wf(),
        ensures
            r.wf(),
            r@ == v_max(self@, o@),
    {
        if self.is_nan() {
            o.dup()
        } else if o.is_nan() {
            self.dup()
        } else if self.less(o) {
            o.dup()
        } else {
            self.dup()
        }
    }

    pub fn min(&self, o: &Self) -> (r: Self)
        requires
            self.wf(),
            o.wf(),
        ensures
            r.wf(),
            r@ == v_min(self@, o@),
    {
        if self.is_nan() {
            o.dup()
        } else if o.is_nan() {
            self.dup()
        } else if o.less(self) {
            o.dup()
        } else {
            self.dup()
        }
    }
}

} // verus!
