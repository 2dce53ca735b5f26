//! Square root, logarithm, exponential and power on extended values.
//!
//! None of these is rational in general, so each is computed as a dyadic or
//! series approximation in exact arithmetic, and its contract states the
//! approximation itself: the specification pins down the exact fraction the
//! function returns, term by term.  The precision constants (128 fraction
//! bits for the square root, 24 and 20 series terms for the logarithm and the
//! exponential) keep the error of every catalog formula far below the 1e-9
//! tolerance its callers work to.

use vstd::prelude::*;
use crate::bigint::{big_view, big_mul, big_shl, big_sqrt, big_clone, big_lt};
use crate::rational::{Rat, Rational, rat, rat_add, rat_sub, rat_mul, rat_div, pow2_int, lemma_pos_mul};
use crate::value::{Val, Number, v_zero, v_one, v_lt, v_abs};

verus! {

/// The integer square root: the unique `r >= 0` with `r^2 <= x < (r+1)^2`.
pub open spec fn floor_sqrt(x: int) -> int {
    choose|r: int| r >= 0 && #[trigger] (r * r) <= x && x < (r + 1) * (r + 1)
}

pub proof fn lemma_floor_sqrt_unique(x: int, r: int)
    requires
        r >= 0,
        r * r <= x,
        x < (r + 1) * (r + 1),
    ensures
        floor_sqrt(x) == r,
{
    assert(r >= 0 && r * r <= x && x < (r + 1) * (r + 1));
    let q = floor_sqrt(x);
    assert(q >= 0 && q * q <= x && x < (q + 1) * (q + 1));
    assert(q == r) by (nonlinear_arith)
        requires
            r >= 0,
            r * r <= x,
            x < (r + 1) * (r + 1),
            q >= 0,
            q * q <= x,
            x < (q + 1) * (q + 1),
    ;
}

/// Dyadic lower approximation of the square root of a nonnegative fraction,
/// with 128 fraction bits: `floor(sqrt(n*d) * 2^128) / (d * 2^128)`.
pub open spec fn rat_sqrt(x: Rat) -> Rat {
    Rat { n: floor_sqrt(x.n * x.d * pow2_int(256)), d: x.d * pow2_int(128) }
}

pub open spec fn v_sqrt(a: Val) -> Val {
    match a {
        Val::Nan => Val::Nan,
        Val::NInf => Val::Nan,
        Val::PInf => Val::PInf,
        Val::Fin(x) => if x.n < 0 {
            Val::Nan
        } else {
            Val::Fin(rat_sqrt(x))
        },
    }
}

/// Doubling of the denominator until the fraction `n / d` drops below two:
/// yields the final denominator and the number of doublings.
pub open spec fn shrink(n: int, d: int) -> (int, int)
    decreases n - d,
        when 0 < d <= n
{
    if n < 2 * d {
        (d, 0)
    } else {
        let r = shrink(n, 2 * d);
        (r.0, r.1 + 1)
    }
}

/// Doubling of the numerator until the fraction `n / d` reaches one: yields
/// the final numerator and minus the number of doublings.
pub open spec fn grow(n: int, d: int) -> (int, int)
    decreases d - n,
        when 0 < n && 0 < d
{
    if n >= d {
        (n, 0)
    } else if 2 * n >= d {
        (2 * n, -1)
    } else {
        let r = grow(2 * n, d);
        (r.0, r.1 - 1)
    }
}

/// A positive fraction written as `m * 2^e` with `1 <= m < 2`: the mantissa
/// and the exponent.
pub open spec fn ln_norm(x: Rat) -> (Rat, int) {
    if x.n >= x.d {
        let sd = shrink(x.n, x.d);
        (Rat { n: x.n, d: sd.0 }, sd.1)
    } else {
        let gn = grow(x.n, x.d);
        (Rat { n: gn.0, d: x.d }, gn.1)
    }
}

/// Odd powers of `z`: the factor carried through the inverse-tanh series.
pub open spec fn zpow_at(z: Rat, k: nat) -> Rat
    decreases k,
{
    if k == 0 {
        z
    } else {
        rat_mul(zpow_at(z, (k - 1) as nat), rat_mul(z, z))
    }
}

/// The first `k` terms of `atanh z = z + z^3/3 + z^5/5 + ...`, summed left
/// to right exactly as the loop computes them.
pub open spec fn atanh_partial(z: Rat, k: nat) -> Rat
    decreases k,
{
    if k == 0 {
        rat(0, 1)
    } else {
        rat_add(
            atanh_partial(z, (k - 1) as nat),
            rat_mul(zpow_at(z, (k - 1) as nat), rat(1, 2 * (k - 1) + 1)),
        )
    }
}

/// The crate's fixed approximation of `ln 2`, via `2 * atanh(1/3)`.
pub open spec fn ln2_approx() -> Rat {
    rat_mul(rat(2, 1), atanh_partial(rat(1, 3), 24))
}

/// The series approximation of the natural logarithm of a positive fraction:
/// with `x = m * 2^e`, `ln x = 2 * atanh((m-1)/(m+1)) + e * ln 2`.
pub open spec fn ln_rat_approx(x: Rat) -> Rat {
    let norm = ln_norm(x);
    let m = round256(norm.0);
    let e = norm.1;
    let z = rat_div(rat_sub(m, rat(1, 1)), rat_add(m, rat(1, 1)));
    round256(rat_add(rat_mul(rat(2, 1), atanh_partial(z, 24)), rat_mul(rat(e, 1), ln2_approx())))
}

pub open spec fn v_ln(a: Val) -> Val {
    match a {
        Val::Nan => Val::Nan,
        Val::PInf => Val::PInf,
        Val::NInf => Val::Nan,
        Val::Fin(x) => if x.n > 0 {
            Val::Fin(ln_rat_approx(x))
        } else if x.n == 0 {
            Val::NInf
        } else {
            Val::Nan
        },
    }
}

/// The numerator of every nonempty inverse-tanh partial sum of a positive
/// argument is positive; needed to divide by the `ln 2` approximation.
pub proof fn lemma_atanh_pos(z: Rat, k: nat)
    requires
        z.n > 0,
        z.d > 0,
    ensures
        zpow_at(z, k).n > 0,
        zpow_at(z, k).d > 0,
        atanh_partial(z, k).n >= 0,
        atanh_partial(z, k).d > 0,
        k >= 1 ==> atanh_partial(z, k).n > 0,
    decreases k,
{
    if k == 0 {
        assert(zpow_at(z, 0) == z);
        assert(atanh_partial(z, 0) == rat(0, 1));
    } else {
        lemma_atanh_pos(z, (k - 1) as nat);
        let zp = zpow_at(z, (k - 1) as nat);
        assert(zpow_at(z, k) == rat_mul(zp, rat_mul(z, z)));
        assert(zpow_at(z, k).n > 0 && zpow_at(z, k).d > 0) by (nonlinear_arith)
            requires
                zpow_at(z, k).n == zp.n * (z.n * z.n),
                zpow_at(z, k).d == zp.d * (z.d * z.d),
                zp.n > 0,
                zp.d > 0,
                z.n > 0,
                z.d > 0,
        ;
        let prev = atanh_partial(z, (k - 1) as nat);
        let term = rat_mul(zp, rat(1, 2 * (k - 1) + 1));
        assert(term.n > 0 && term.d > 0) by (nonlinear_arith)
            requires
                term.n == zp.n * 1,
                term.d == zp.d * (2 * (k - 1) + 1),
                zp.n > 0,
                zp.d > 0,
                k >= 1,
        ;
        assert(atanh_partial(z, k) == rat_add(prev, term));
        assert(prev.n * term.d + term.n * prev.d > 0 && prev.d * term.d > 0) by (nonlinear_arith)
            requires
                prev.n >= 0,
                prev.d > 0,
                term.n > 0,
                term.d > 0,
        ;
    }
}

/// One step of the mantissa search: whether `n >= 2 * d`.
fn ge_twice(n: &num_bigint::BigInt, d: &num_bigint::BigInt) -> (r: bool)
    ensures
        r == (big_view(*n) >= 2 * big_view(*d)),
{
    let t = big_shl(d, 1);
    proof {
        vstd::arithmetic::power2::lemma2_to64();
    }
    !big_lt(n, &t)
}

/// The first 24 terms of `atanh z`, left to right.
fn atanh_series(z: &Rational) -> (r: Rational)
    requires
        z.wf(),
    ensures
        r.wf(),
        r@ == atanh_partial(z@, 24),
{
    let z2 = z.mul(z);
    let mut acc = Rational::from_u64(0);
    let mut zpow = z.dup();
    let mut k: usize = 0;
    while k < 24
        invariant
            0 <= k <= 24,
            z.wf(),
            z2.wf(),
            acc.wf(),
            zpow.wf(),
            z2@ == rat_mul(z@, z@),
            acc@ == atanh_partial(z@, k as nat),
            zpow@ == zpow_at(z@, k as nat),
        decreases 24 - k,
    {
        let odd = Rational::recip_of_u64((2 * k + 1) as u64);
        let term = zpow.mul(&odd);
        acc = acc.add(&term);
        zpow = zpow.mul(&z2);
        k = k + 1;
        proof {
            assert(acc@ == atanh_partial(z@, k as nat));
            assert(zpow@ == zpow_at(z@, k as nat));
        }
    }
    acc
}

/// The crate's `ln 2`.
fn ln2_rat() -> (r: Rational)
    ensures
        r.wf(),
        r@ == ln2_approx(),
        r@.n > 0,
        r@.d > 0,
{
    let third = Rational::recip_of_u64(3);
    let s = atanh_series(&third);
    let two = Rational::from_u64(2);
    proof {
        lemma_atanh_pos(rat(1, 3), 24);
        assert(2 * atanh_partial(rat(1, 3), 24).n > 0);
    }
    two.mul(&s)
}

/// Natural logarithm of a positive fraction, by mantissa-exponent reduction
/// and the inverse-tanh series.
fn ln_pos(x: &Rational) -> (r: Rational)
    requires
        x.wf(),
        x@.n > 0,
    ensures
        r.wf(),
        r@ == ln_rat_approx(x@),
{
    let one_r = Rational::from_u64(1);
    let mut ecount = Rational::from_u64(0);
    let ghost n0: int = x@.n;
    let ghost d0: int = x@.d;
    let m: Rational;
    if !big_lt(&x.num, &x.den) {
        // n >= d: double the denominator until the value drops below two
        let mut dcur = big_clone(&x.den);
        while ge_twice(&x.num, &dcur)
            invariant
                0 < big_view(dcur) <= n0,
                x@.n == n0,
                x@.d == d0,
                x.wf(),
                one_r.wf(),
                one_r@ == rat(1, 1),
                ecount.wf(),
                ecount@.d == 1,
                shrink(n0, big_view(dcur)).0 == shrink(n0, d0).0,
                shrink(n0, big_view(dcur)).1 + ecount@.n == shrink(n0, d0).1,
            decreases n0 - big_view(dcur),
        {
            let ghost dold: int = big_view(dcur);
            dcur = big_shl(&dcur, 1);
            ecount = ecount.add(&one_r);
            proof {
                vstd::arithmetic::power2::lemma2_to64();
                assert(big_view(dcur) == 2 * dold);
                assert(shrink(n0, dold) == (shrink(n0, 2 * dold).0, shrink(n0, 2 * dold).1 + 1));
            }
        }
        proof {
            assert(shrink(n0, big_view(dcur)) == (big_view(dcur), 0int));
        }
        m = Rational { num: big_clone(&x.num), den: dcur };
    } else {
        // n < d: double the numerator until the value reaches one
        let mut ncur = big_clone(&x.num);
        while big_lt(&ncur, &x.den)
            invariant
                0 < big_view(ncur),
                x@.n == n0,
                x@.d == d0,
                x.wf(),
                one_r.wf(),
                one_r@ == rat(1, 1),
                ecount.wf(),
                ecount@.d == 1,
                grow(big_view(ncur), d0).0 == grow(n0, d0).0,
                grow(big_view(ncur), d0).1 + ecount@.n == grow(n0, d0).1,
            decreases 2 * d0 - big_view(ncur),
        {
            let ghost nold: int = big_view(ncur);
            ncur = big_shl(&ncur, 1);
            ecount = ecount.sub(&one_r);
            proof {
                vstd::arithmetic::power2::lemma2_to64();
                assert(big_view(ncur) == 2 * nold);
                if 2 * nold >= d0 {
                    assert(grow(2 * nold, d0) == (2 * nold, 0int));
                    assert(grow(nold, d0) == (2 * nold, -1int));
                } else {
                    assert(grow(nold, d0) == (grow(2 * nold, d0).0, grow(2 * nold, d0).1 - 1));
                }
            }
        }
        proof {
            assert(grow(big_view(ncur), d0) == (big_view(ncur), 0int));
        }
        m = Rational { num: ncur, den: big_clone(&x.den) };
    }
    proof {
        assert(m@ == ln_norm(x@).0);
        assert(ecount@ == rat(ln_norm(x@).1, 1));
    }
    let mr = round_dyadic(&m);
    proof {
        vstd::arithmetic::power2::lemma_pow2_pos(256);
        assert(mr@.n >= pow2_int(256)) by (nonlinear_arith)
            requires
                m@.d * mr@.n <= m@.n * pow2_int(256),
                m@.n * pow2_int(256) < m@.d * (mr@.n + 1),
                m@.n >= m@.d,
                m@.d > 0,
                pow2_int(256) > 0,
                mr@.n == rat_floor(Rat { n: m@.n * pow2_int(256), d: m@.d }),
        ;
    }
    let z = mr.sub(&one_r).div(&mr.add(&one_r));
    let s = atanh_series(&z);
    let two_r = Rational::from_u64(2);
    let l2 = ln2_rat();
    round_dyadic(&two_r.mul(&s).add(&ecount.mul(&l2)))
}

/// The integer floor of a fraction with a positive denominator.
pub open spec fn rat_floor(x: Rat) -> int {
    choose|q: int| #[trigger] (x.d * q) <= x.n && x.n < x.d * (q + 1)
}

pub proof fn lemma_rat_floor_unique(x: Rat, q: int)
    requires
        x.d > 0,
        x.d * q <= x.n,
        x.n < x.d * (q + 1),
    ensures
        rat_floor(x) == q,
{
    assert(x.d * q <= x.n && x.n < x.d * (q + 1));
    let p = rat_floor(x);
    assert(x.d * p <= x.n && x.n < x.d * (p + 1));
    assert(p == q) by (nonlinear_arith)
        requires
            x.d > 0,
            x.d * q <= x.n,
            x.n < x.d * (q + 1),
            x.d * p <= x.n,
            x.n < x.d * (p + 1),
    ;
}

/// The nearest dyadic fraction at or below `x`, with 256 fraction bits.
/// The logarithm and the exponential round their mantissa-sized
/// intermediates through this, so components stay small while every catalog
/// result keeps far more precision than its callers' tolerance asks.
pub open spec fn round256(x: Rat) -> Rat {
    Rat { n: rat_floor(Rat { n: x.n * pow2_int(256), d: x.d }), d: pow2_int(256) }
}

fn round_dyadic(x: &Rational) -> (r: Rational)
    requires
        x.wf(),
    ensures
        r.wf(),
        r@ == round256(x@),
        r@.d == pow2_int(256),
        x@.d * r@.n <= x@.n * pow2_int(256),
        x@.n * pow2_int(256) < x@.d * (r@.n + 1),
{
    let num = big_shl(&x.num, 256);
    let q = crate::bigint::big_div_floor(&num, &x.den);
    proof {
        lemma_rat_floor_unique(Rat { n: x@.n * pow2_int(256), d: x@.d }, big_view(q));
        vstd::arithmetic::power2::lemma_pow2_pos(256);
    }
    let one = crate::bigint::big_from_u64(1);
    Rational { num: q, den: big_shl(&one, 256) }
}

/// The factorial-quotient term `r^j / j!`, built the way the loop builds it.
pub open spec fn exp_term(r: Rat, j: nat) -> Rat
    decreases j,
{
    if j == 0 {
        rat(1, 1)
    } else {
        rat_mul(rat_mul(exp_term(r, (j - 1) as nat), r), rat(1, j as int))
    }
}

/// The first `k` terms of `exp r`, summed left to right.
pub open spec fn exp_partial(r: Rat, k: nat) -> Rat
    decreases k,
{
    if k == 0 {
        rat(0, 1)
    } else {
        rat_add(exp_partial(r, (k - 1) as nat), exp_term(r, (k - 1) as nat))
    }
}

/// The series approximation of `exp y`: the argument is reduced by the
/// nearest multiple of `ln 2`, the series runs on the remainder, and the
/// result is rescaled by that power of two.  A multiple beyond 2^20 is far
/// outside every binary floating-point range, so the result saturates to the
/// positive infinity or to zero there instead of materializing the power.
pub open spec fn exp_rat_approx(y: Rat) -> Val {
    let t = rat_add(rat_div(y, ln2_approx()), rat(1, 2));
    let k = rat_floor(t);
    if k > 1048576 {
        Val::PInf
    } else if k < -1048576 {
        Val::Fin(rat(0, 1))
    } else {
        let s = round256(exp_partial(round256(rat_sub(y, rat_mul(rat(k, 1), ln2_approx()))), 20));
        if k >= 0 {
            Val::Fin(Rat { n: s.n * pow2_int(k as nat), d: s.d })
        } else {
            Val::Fin(Rat { n: s.n, d: s.d * pow2_int((-k) as nat) })
        }
    }
}

pub open spec fn v_exp(a: Val) -> Val {
    match a {
        Val::Nan => Val::Nan,
        Val::PInf => Val::PInf,
        Val::NInf => Val::Fin(rat(0, 1)),
        Val::Fin(y) => exp_rat_approx(y),
    }
}

/// The first 20 terms of `exp r`, left to right.
fn exp_series(r: &Rational) -> (s: Rational)
    requires
        r.wf(),
    ensures
        s.wf(),
        s@ == exp_partial(r@, 20),
{
    let mut acc = Rational::from_u64(0);
    let mut term = Rational::from_u64(1);
    let mut k: usize = 0;
    while k < 20
        invariant
            0 <= k <= 20,
            r.wf(),
            acc.wf(),
            term.wf(),
            acc@ == exp_partial(r@, k as nat),
            term@ == exp_term(r@, k as nat),
        decreases 20 - k,
    {
        acc = acc.add(&term);
        let recip = Rational::recip_of_u64((k + 1) as u64);
        term = term.mul(r).mul(&recip);
        k = k + 1;
        proof {
            assert(acc@ == exp_partial(r@, k as nat));
            assert(term@ == exp_term(r@, k as nat));
        }
    }
    acc
}

/// `exp` of a finite fraction.
fn exp_fin(y: &Rational) -> (r: Number)
    requires
        y.wf(),
    ensures
        r.wf(),
        r@ == exp_rat_approx(y@),
{
    let l2 = ln2_rat();
    let half = Rational::recip_of_u64(2);
    let t = y.div(&l2).add(&half);
    let kq = crate::bigint::big_div_floor(&t.num, &t.den);
    proof {
        lemma_rat_floor_unique(t@, big_view(kq));
    }
    let clamp = crate::bigint::big_from_u64(1048576);
    let zero_b = crate::bigint::big_from_u64(0);
    let neg_clamp = crate::bigint::big_sub(&zero_b, &clamp);
    if big_lt(&clamp, &kq) {
        Number::PosInf
    } else if big_lt(&kq, &neg_clamp) {
        Number::Finite(Rational::from_u64(0))
    } else {
        let k_rat = Rational { num: big_clone(&kq), den: crate::bigint::big_from_u64(1) };
        let r0 = round_dyadic(&y.sub(&k_rat.mul(&l2)));
        let s = round_dyadic(&exp_series(&r0));
        if !big_lt(&kq, &zero_b) {
            let sh = crate::bigint::big_to_u64(&kq);
            let num = big_shl(&s.num, sh as usize);
            Number::Finite(Rational { num, den: big_clone(&s.den) })
        } else {
            let sh = crate::bigint::big_to_u64(&crate::bigint::big_sub(&zero_b, &kq));
            proof {
                vstd::arithmetic::power2::lemma_pow2_pos(sh as nat);
                lemma_pos_mul(big_view(s.den), pow2_int(sh as nat));
            }
            let den = big_shl(&s.den, sh as usize);
            Number::Finite(Rational { num: big_clone(&s.num), den })
        }
    }
}

pub open spec fn v_fin_zero(a: Val) -> bool {
    match a {
        Val::Fin(x) => x.n == 0,
        _ => false,
    }
}

pub open spec fn v_fin_one(a: Val) -> bool {
    match a {
        Val::Fin(x) => x.n == x.d,
        _ => false,
    }
}

pub open spec fn v_rat_of(a: Val) -> Rat {
    match a {
        Val::Fin(x) => x,
        _ => rat(0, 1),
    }
}

/// The power function, following the double-precision `powf` rules: a zero
/// exponent and a base of one dominate everything, including the marker;
/// infinite exponents compare the base's magnitude with one; a negative
/// finite base has no real power here (odd-integer exponents are not
/// distinguished, so they too yield the marker, where `powf` would return a
/// signed value); and the general positive case is `exp(b * ln a)`.
pub open spec fn v_powf(a: Val, b: Val) -> Val {
    if v_fin_zero(b) {
        v_one()
    } else if v_fin_one(a) {
        v_one()
    } else if a is Nan || b is Nan {
        Val::Nan
    } else if b is PInf {
        if v_lt(v_one(), v_abs(a)) {
            Val::PInf
        } else if v_lt(v_abs(a), v_one()) {
            v_zero()
        } else {
            v_one()
        }
    } else if b is NInf {
        if v_lt(v_one(), v_abs(a)) {
            v_zero()
        } else if v_lt(v_abs(a), v_one()) {
            Val::PInf
        } else {
            v_one()
        }
    } else if a is PInf || a is NInf {
        if v_rat_of(b).n > 0 {
            Val::PInf
        } else {
            v_zero()
        }
    } else if v_fin_zero(a) {
        if v_rat_of(b).n > 0 {
            v_zero()
        } else {
            Val::PInf
        }
    } else if v_rat_of(a).n < 0 {
        Val::Nan
    } else {
        exp_rat_approx(rat_mul(v_rat_of(b), ln_rat_approx(v_rat_of(a))))
    }
}

impl Number {
    fn is_fin_zero(&self) -> (r: bool)
        ensures
            r == v_fin_zero(self@),
    {
        match self {
            Number::Finite(x) => x.is_zero(),
            _ => false,
        }
    }

    fn is_fin_one(&self) -> (r: bool)
        ensures
            r == v_fin_one(self@),
    {
        match self {
            Number::Finite(x) => crate::bigint::big_eq(&x.num, &x.den),
            _ => false,
        }
    }

    /// The exponential; only the power function needs it, but it follows the
    /// double-precision rules at the infinities all the same.
    pub fn exp(&self) -> (r: Self)
        requires
            self.wf(),
        ensures
            r.wf(),
            r@ == v_exp(self@),
    {
        match self {
            Number::NaN => Number::NaN,
            Number::PosInf => Number::PosInf,
            Number::NegInf => Number::Finite(Rational::from_u64(0)),
            Number::Finite(y) => exp_fin(y),
        }
    }

    /// The power function; see `v_powf` for the case table.
    pub fn powf(&self, e: &Self) -> (r: Self)
        requires
            self.wf(),
            e.wf(),
        ensures
            r.wf(),
            r@ == v_powf(self@, e@),
    {
        let one_n = Number::from_u64(1);
        if e.is_fin_zero() {
            one_n
        } else if self.is_fin_one() {
            one_n
        } else if self.is_nan() || e.is_nan() {
            Number::NaN
        } else if e.is_pos_inf() {
            let aa = self.abs();
            if one_n.less(&aa) {
                Number::PosInf
            } else if aa.less(&one_n) {
                Number::from_u64(0)
            } else {
                one_n
            }
        } else if e.is_neg_inf() {
            let aa = self.abs();
            if one_n.less(&aa) {
                Number::from_u64(0)
            } else if aa.less(&one_n) {
                Number::PosInf
            } else {
                one_n
            }
        } else if self.is_pos_inf() || self.is_neg_inf() {
            match e {
                Number::Finite(y) => {
                    if !y.is_neg() && !y.is_zero() {
                        Number::PosInf
                    } else {
                        Number::from_u64(0)
                    }
                },
                _ => Number::NaN,
            }
        } else if self.is_fin_zero() {
            match e {
                Number::Finite(y) => {
                    if !y.is_neg() && !y.is_zero() {
                        Number::from_u64(0)
                    } else {
                        Number::PosInf
                    }
                },
                _ => Number::NaN,
            }
        } else {
            match (self, e) {
                (Number::Finite(x), Number::Finite(y)) => {
                    if x.is_neg() {
                        Number::NaN
                    } else {
                        exp_fin(&y.mul(&ln_pos(x)))
                    }
                },
                _ => Number::NaN,
            }
        }
    }

    /// Natural logarithm: `ln 0` is the negative infinity, and a negative
    /// argument has none, the double-precision rules.
    pub fn ln(&self) -> (r: Self)
        requires
            self.wf(),
        ensures
            r.wf(),
            r@ == v_ln(self@),
    {
        match self {
            Number::NaN => Number::NaN,
            Number::PosInf => Number::PosInf,
            Number::NegInf => Number::NaN,
            Number::Finite(x) => {
                if x.is_neg() {
                    Number::NaN
                } else if x.is_zero() {
                    Number::NegInf
                } else {
                    Number::Finite(ln_pos(x))
                }
            },
        }
    }

    /// Square root; negative values have none, and the degenerate cases
    /// follow the double-precision rules.
    pub fn sqrt(&self) -> (r: Self)
        requires
            self.wf(),
        ensures
            r.wf(),
            r@ == v_sqrt(self@),
    {
        match self {
            Number::NaN => Number::NaN,
            Number::NegInf => Number::NaN,
            Number::PosInf => Number::PosInf,
            Number::Finite(x) => {
                if x.is_neg() {
                    Number::NaN
                } else {
                    let nd = big_mul(&x.num, &x.den);
                    proof {
                        assert(big_view(nd) >= 0) by (nonlinear_arith)
                            requires
                                big_view(nd) == big_view(x.num) * big_view(x.den),
                                big_view(x.num) >= 0,
                                big_view(x.den) > 0,
                        ;
                        vstd::arithmetic::power2::lemma_pow2_pos(256);
                        assert(big_view(nd) * pow2_int(256) >= 0) by (nonlinear_arith)
                            requires
                                big_view(nd) >= 0,
                                pow2_int(256) > 0,
                        ;
                    }
                    let scaled = big_shl(&nd, 256);
                    let s = big_sqrt(&scaled);
                    proof {
                        lemma_floor_sqrt_unique(big_view(scaled), big_view(s));
                        vstd::arithmetic::power2::lemma_pow2_pos(128);
                        lemma_pos_mul(big_view(x.den), pow2_int(128));
                    }
                    let den = big_shl(&x.den, 128);
                    Number::Finite(Rational { num: s, den })
                }
            },
        }
    }
}

} // verus!
