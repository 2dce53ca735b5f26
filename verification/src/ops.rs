//! The shared pairing and folding contract of the catalog.
//!
//! Every metric walks the two vectors index by index, pairs `p[i]` with
//! `q[i]` up to the shorter length, maps each pair through one element rule,
//! and folds the terms left to right — a sum, or a running maximum.  This
//! module states that contract once: `Rule` names each element formula,
//! `zip_terms` is the pairing, `v_sum` and `v_max_fold` are the folds, and
//! the executable walkers mirror them exactly.

use vstd::prelude::*;
use vstd::seq_lib::*;
use crate::rational::{rat, Rational};
use crate::bigint::{big_from_u64};
use crate::value::{Val, Number, v_zero, v_one, v_add, v_sub, v_mul, v_div, v_abs, v_min, v_max};
use crate::elementary::{v_sqrt, v_ln, v_powf};

verus! {

pub open spec fn v_two() -> Val {
    Val::Fin(rat(2, 1))
}

/// Ghost name of an element formula: what one paired step computes.
pub ghost enum Rule {
    /// `|p - q|`
    AbsDiff,
    /// `(p - q)^2`
    SqDiff,
    /// `p + q`
    SumPq,
    /// `min(p, q)`
    MinPq,
    /// `max(p, q)`
    MaxPq,
    /// `p * q`
    Prod,
    /// `|p - q|^d`
    PowAbsDiff(Val),
    /// `|p - q| / (|p| + |q|)`
    CanberraTerm,
    /// `|p - q| / max(p, q)`
    WaveHedgesTerm,
    /// `ln(1 + |p - q|)`
    LorentzianTerm,
    /// `(p * q) / (p + q)`
    HarmonicTerm,
    /// `sqrt(p * q)`
    SqrtProd,
    /// `(sqrt p - sqrt q)^2`
    SqrtDiffSq,
    /// `(p - q)^2 / q`
    PearsonTerm,
    /// `(p - q)^2 / p`
    NeymanTerm,
    /// `(p - q)^2 / (p + q)`
    SquaredTerm,
    /// `(p - q)^2 / (p + q)^2`
    DivergenceTerm,
    /// `(|p - q| / (p + q))^2`
    ClarkTerm,
    /// `((p - q)^2 * (p + q)) / (p * q)`
    AddSymTerm,
    /// `p * ln(p / q)`
    KullbackTerm,
    /// `(p - q) * ln(p / q)`
    JeffreysTerm,
    /// `p * ln(2p / (p + q))`
    KDivTerm,
    /// `q * ln(2q / (p + q))`
    KDivTermRev,
    /// `p * ln(2p / (p + q)) + q * ln(2q / (p + q))`
    TopsoeTerm,
    /// `(p ln p + q ln q) / 2 - ((p + q) / 2) * ln((p + q) / 2)`
    JensenDiffTerm,
    /// `((p + q) / 2) * ln((p + q) / (2 * sqrt(p * q)))`
    TanejaTerm,
    /// `(p^2 - q^2)^2 / (2 * (p * q)^(3/2))`
    KumarJohnsonTerm,
}

pub open spec fn apply_rule(r: Rule, a: Val, b: Val) -> Val {
    match r {
        Rule::AbsDiff => v_abs(v_sub(a, b)),
        Rule::SqDiff => v_mul(v_sub(a, b), v_sub(a, b)),
        Rule::SumPq => v_add(a, b),
        Rule::MinPq => v_min(a, b),
        Rule::MaxPq => v_max(a, b),
        Rule::Prod => v_mul(a, b),
        Rule::PowAbsDiff(d) => v_powf(v_abs(v_sub(a, b)), d),
        Rule::CanberraTerm => v_div(v_abs(v_sub(a, b)), v_add(v_abs(a), v_abs(b))),
        Rule::WaveHedgesTerm => v_div(v_abs(v_sub(a, b)), v_max(a, b)),
        Rule::LorentzianTerm => v_ln(v_add(v_one(), v_abs(v_sub(a, b)))),
        Rule::HarmonicTerm => v_div(v_mul(a, b), v_add(a, b)),
        Rule::SqrtProd => v_sqrt(v_mul(a, b)),
        Rule::SqrtDiffSq => v_mul(v_sub(v_sqrt(a), v_sqrt(b)), v_sub(v_sqrt(a), v_sqrt(b))),
        Rule::PearsonTerm => v_div(v_mul(v_sub(a, b), v_sub(a, b)), b),
        Rule::NeymanTerm => v_div(v_mul(v_sub(a, b), v_sub(a, b)), a),
        Rule::SquaredTerm => v_div(v_mul(v_sub(a, b), v_sub(a, b)), v_add(a, b)),
        Rule::DivergenceTerm => v_div(
            v_mul(v_sub(a, b), v_sub(a, b)),
            v_mul(v_add(a, b), v_add(a, b)),
        ),
        Rule::ClarkTerm => v_mul(
            v_div(v_abs(v_sub(a, b)), v_add(a, b)),
            v_div(v_abs(v_sub(a, b)), v_add(a, b)),
        ),
        Rule::AddSymTerm => v_div(
            v_mul(v_mul(v_sub(a, b), v_sub(a, b)), v_add(a, b)),
            v_mul(a, b),
        ),
        Rule::KullbackTerm => v_mul(a, v_ln(v_div(a, b))),
        Rule::JeffreysTerm => v_mul(v_sub(a, b), v_ln(v_div(a, b))),
        Rule::KDivTerm => v_mul(a, v_ln(v_div(v_mul(v_two(), a), v_add(a, b)))),
        Rule::KDivTermRev => v_mul(b, v_ln(v_div(v_mul(v_two(), b), v_add(a, b)))),
        Rule::TopsoeTerm => v_add(
            v_mul(a, v_ln(v_div(v_mul(v_two(), a), v_add(a, b)))),
            v_mul(b, v_ln(v_div(v_mul(v_two(), b), v_add(a, b)))),
        ),
        Rule::JensenDiffTerm => v_sub(
            v_div(v_add(v_mul(a, v_ln(a)), v_mul(b, v_ln(b))), v_two()),
            v_mul(v_div(v_add(a, b), v_two()), v_ln(v_div(v_add(a, b), v_two()))),
        ),
        Rule::TanejaTerm => v_mul(
            v_div(v_add(a, b), v_two()),
            v_ln(v_div(v_add(a, b), v_mul(v_two(), v_sqrt(v_mul(a, b))))),
        ),
        Rule::KumarJohnsonTerm => v_div(
            v_mul(v_sub(v_mul(a, a), v_mul(b, b)), v_sub(v_mul(a, a), v_mul(b, b))),
            v_mul(v_two(), v_powf(v_mul(a, b), Val::Fin(rat(3, 2)))),
        ),
    }
}

/// Executable element formula; `rule_of` is its ghost name.
pub enum PairOp {
    AbsDiff,
    SqDiff,
    SumPq,
    MinPq,
    MaxPq,
    Prod,
    PowAbsDiff(Number),
    CanberraTerm,
    WaveHedgesTerm,
    LorentzianTerm,
    HarmonicTerm,
    SqrtProd,
    SqrtDiffSq,
    PearsonTerm,
    NeymanTerm,
    SquaredTerm,
    DivergenceTerm,
    ClarkTerm,
    AddSymTerm,
    KullbackTerm,
    JeffreysTerm,
    KDivTerm,
    KDivTermRev,
    TopsoeTerm,
    JensenDiffTerm,
    TanejaTerm,
    KumarJohnsonTerm,
}

pub open spec fn rule_of(op: PairOp) -> Rule {
    match op {
        PairOp::AbsDiff => Rule::AbsDiff,
        PairOp::SqDiff => Rule::SqDiff,
        PairOp::SumPq => Rule::SumPq,
        PairOp::MinPq => Rule::MinPq,
        PairOp::MaxPq => Rule::MaxPq,
        PairOp::Prod => Rule::Prod,
        PairOp::PowAbsDiff(d) => Rule::PowAbsDiff(d@),
        PairOp::CanberraTerm => Rule::CanberraTerm,
        PairOp::WaveHedgesTerm => Rule::WaveHedgesTerm,
        PairOp::LorentzianTerm => Rule::LorentzianTerm,
        PairOp::HarmonicTerm => Rule::HarmonicTerm,
        PairOp::SqrtProd => Rule::SqrtProd,
        PairOp::SqrtDiffSq => Rule::SqrtDiffSq,
        PairOp::PearsonTerm => Rule::PearsonTerm,
        PairOp::NeymanTerm => Rule::NeymanTerm,
        PairOp::SquaredTerm => Rule::SquaredTerm,
        PairOp::DivergenceTerm => Rule::DivergenceTerm,
        PairOp::ClarkTerm => Rule::ClarkTerm,
        PairOp::AddSymTerm => Rule::AddSymTerm,
        PairOp::KullbackTerm => Rule::KullbackTerm,
        PairOp::JeffreysTerm => Rule::JeffreysTerm,
        PairOp::KDivTerm => Rule::KDivTerm,
        PairOp::KDivTermRev => Rule::KDivTermRev,
        PairOp::TopsoeTerm => Rule::TopsoeTerm,
        PairOp::JensenDiffTerm => Rule::JensenDiffTerm,
        PairOp::TanejaTerm => Rule::TanejaTerm,
        PairOp::KumarJohnsonTerm => Rule::KumarJohnsonTerm,
    }
}

pub open spec fn op_wf(op: PairOp) -> bool {
    match op {
        PairOp::PowAbsDiff(d) => d.wf(),
        _ => true,
    }
}

/// One paired step.
fn apply(op: &PairOp, a: &Number, b: &Number) -> (t: Number)
    requires
        op_wf(*op),
        a.wf(),
        b.wf(),
    ensures
        t.wf(),
        t@ == apply_rule(rule_of(*op), a@, b@),
{
    match op {
        PairOp::AbsDiff => a.sub(b).abs(),
        PairOp::SqDiff => a.sub(b).mul(&a.sub(b)),
        PairOp::SumPq => a.add(b),
        PairOp::MinPq => a.min(b),
        PairOp::MaxPq => a.max(b),
        PairOp::Prod => a.mul(b),
        PairOp::PowAbsDiff(d) => a.sub(b).abs().powf(d),
        PairOp::CanberraTerm => a.sub(b).abs().div(&a.abs().add(&b.abs())),
        PairOp::WaveHedgesTerm => a.sub(b).abs().div(&a.max(b)),
        PairOp::LorentzianTerm => Number::from_u64(1).add(&a.sub(b).abs()).ln(),
        PairOp::HarmonicTerm => a.mul(b).div(&a.add(b)),
        PairOp::SqrtProd => a.mul(b).sqrt(),
        PairOp::SqrtDiffSq => a.sqrt().sub(&b.sqrt()).mul(&a.sqrt().sub(&b.sqrt())),
        PairOp::PearsonTerm => a.sub(b).mul(&a.sub(b)).div(b),
        PairOp::NeymanTerm => a.sub(b).mul(&a.sub(b)).div(a),
        PairOp::SquaredTerm => a.sub(b).mul(&a.sub(b)).div(&a.add(b)),
        PairOp::DivergenceTerm => a.sub(b).mul(&a.sub(b)).div(&a.add(b).mul(&a.add(b))),
        PairOp::ClarkTerm => {
            let t = a.sub(b).abs().div(&a.add(b));
            t.mul(&t)
        },
        PairOp::AddSymTerm => a.sub(b).mul(&a.sub(b)).mul(&a.add(b)).div(&a.mul(b)),
        PairOp::KullbackTerm => a.mul(&a.div(b).ln()),
        PairOp::JeffreysTerm => a.sub(b).mul(&a.div(b).ln()),
        PairOp::KDivTerm => {
            let two = Number::from_u64(2);
            a.mul(&two.mul(a).div(&a.add(b)).ln())
        },
        PairOp::KDivTermRev => {
            let two = Number::from_u64(2);
            b.mul(&two.mul(b).div(&a.add(b)).ln())
        },
        PairOp::TopsoeTerm => {
            let two = Number::from_u64(2);
            let l = a.mul(&two.mul(a).div(&a.add(b)).ln());
            let rr = b.mul(&two.mul(b).div(&a.add(b)).ln());
            l.add(&rr)
        },
        PairOp::JensenDiffTerm => {
            let two = Number::from_u64(2);
            let entro = a.mul(&a.ln()).add(&b.mul(&b.ln())).div(&two);
            let mid = a.add(b).div(&two);
            entro.sub(&mid.mul(&mid.ln()))
        },
        PairOp::TanejaTerm => {
            let two = Number::from_u64(2);
            let mid = a.add(b).div(&two);
            mid.mul(&a.add(b).div(&two.mul(&a.mul(b).sqrt())).ln())
        },
        PairOp::KumarJohnsonTerm => {
            let two = Number::from_u64(2);
            let three_half = Number::Finite(Rational { num: big_from_u64(3), den: big_from_u64(2) });
            let t = a.mul(a).sub(&b.mul(b));
            t.mul(&t).div(&two.mul(&a.mul(b).powf(&three_half)))
        },
    }
}

/// Index-by-index pairing, truncated to the shorter vector, mapped through
/// one rule: the terms every metric folds.
pub open spec fn zip_terms(p: Seq<Val>, q: Seq<Val>, r: Rule) -> Seq<Val> {
    Seq::new(if p.len() <= q.len() { p.len() } else { q.len() }, |i: int| apply_rule(r, p[i], q[i]))
}

/// Left-to-right sum of a sequence of terms, from an exact zero.
pub open spec fn v_sum(s: Seq<Val>) -> Val
    decreases s.len(),
{
    if s.len() == 0 {
        v_zero()
    } else {
        v_add(v_sum(s.drop_last()), s.last())
    }
}

/// Left-to-right running maximum from a seed.
pub open spec fn v_max_fold(s: Seq<Val>, seed: Val) -> Val
    decreases s.len(),
{
    if s.len() == 0 {
        seed
    } else {
        v_max(v_max_fold(s.drop_last(), seed), s.last())
    }
}

pub open spec fn views(s: Seq<Number>) -> Seq<Val> {
    s.map_values(|x: Number| x@)
}

pub open spec fn vec_wf(s: Seq<Number>) -> bool {
    forall|i: int| 0 <= i < s.len() ==> (#[trigger] s[i]).wf()
}

pub open spec fn sum_pairs(p: Seq<Val>, q: Seq<Val>, r: Rule) -> Val {
    v_sum(zip_terms(p, q, r))
}

pub open spec fn max_pairs(p: Seq<Val>, q: Seq<Val>, r: Rule, seed: Val) -> Val {
    v_max_fold(zip_terms(p, q, r), seed)
}

/// The summing walk shared by the whole catalog.
pub(crate) fn fold_sum(p: &Vec<Number>, q: &Vec<Number>, op: &PairOp) -> (r: Number)
    requires
        vec_wf(p@),
        vec_wf(q@),
        op_wf(*op),
    ensures
        r.wf(),
        r@ == sum_pairs(views(p@), views(q@), rule_of(*op)),
{
    let n = if p.len() <= q.len() { p.len() } else { q.len() };
    let ghost ts: Seq<Val> = zip_terms(views(p@), views(q@), rule_of(*op));
    let mut acc = Number::from_u64(0);
    let mut i: usize = 0;
    while i < n
        invariant
            0 <= i <= n,
            n == if p@.len() <= q@.len() { p@.len() } else { q@.len() },
            vec_wf(p@),
            vec_wf(q@),
            op_wf(*op),
            ts == zip_terms(views(p@), views(q@), rule_of(*op)),
            ts.len() == n,
            acc.wf(),
            acc@ == v_sum(ts.take(i as int)),
        decreases n - i,
    {
        let t = apply(op, &p[i], &q[i]);
        acc = acc.add(&t);
        i = i + 1;
        proof {
            assert(ts.take(i as int).drop_last() =~= ts.take(i as int - 1));
            assert(ts.take(i as int).last() == ts[i as int - 1]);
        }
    }
    proof {
        assert(ts.take(n as int) =~= ts);
    }
    acc
}

/// The maximum-seeking walk of `chebyshev` and `avg`.
pub(crate) fn fold_max(p: &Vec<Number>, q: &Vec<Number>, op: &PairOp, seed: Number) -> (r: Number)
    requires
        vec_wf(p@),
        vec_wf(q@),
        op_wf(*op),
        seed.wf(),
    ensures
        r.wf(),
        r@ == max_pairs(views(p@), views(q@), rule_of(*op), seed@),
{
    let n = if p.len() <= q.len() { p.len() } else { q.len() };
    let ghost ts: Seq<Val> = zip_terms(views(p@), views(q@), rule_of(*op));
    let ghost seed0: Val = seed@;
    let mut acc = seed;
    let mut i: usize = 0;
    while i < n
        invariant
            0 <= i <= n,
            n == if p@.len() <= q@.len() { p@.len() } else { q@.len() },
            vec_wf(p@),
            vec_wf(q@),
            op_wf(*op),
            ts == zip_terms(views(p@), views(q@), rule_of(*op)),
            ts.len() == n,
            acc.wf(),
            acc@ == v_max_fold(ts.take(i as int), seed0),
        decreases n - i,
    {
        let t = apply(op, &p[i], &q[i]);
        acc = acc.max(&t);
        i = i + 1;
        proof {
            assert(ts.take(i as int).drop_last() =~= ts.take(i as int - 1));
            assert(ts.take(i as int).last() == ts[i as int - 1]);
        }
    }
    proof {
        assert(ts.take(n as int) =~= ts);
    }
    acc
}

/// Squared-entry terms of one vector alone.
pub open spec fn sq_terms(p: Seq<Val>) -> Seq<Val> {
    Seq::new(p.len(), |i: int| v_mul(p[i], p[i]))
}

pub open spec fn sum_squares(p: Seq<Val>) -> Val {
    v_sum(sq_terms(p))
}

/// The sum of squared entries, for the inner-product family.
pub(crate) fn fold_sum_squares(p: &Vec<Number>) -> (r: Number)
    requires
        vec_wf(p@),
    ensures
        r.wf(),
        r@ == sum_squares(views(p@)),
{
    let ghost ts: Seq<Val> = sq_terms(views(p@));
    let n = p.len();
    let mut acc = Number::from_u64(0);
    let mut i: usize = 0;
    while i < n
        invariant
            0 <= i <= n,
            n == p@.len(),
            vec_wf(p@),
            ts == sq_terms(views(p@)),
            ts.len() == n,
            acc.wf(),
            acc@ == v_sum(ts.take(i as int)),
        decreases n - i,
    {
        let t = p[i].mul(&p[i]);
        acc = acc.add(&t);
        i = i + 1;
        proof {
            assert(ts.take(i as int).drop_last() =~= ts.take(i as int - 1));
            assert(ts.take(i as int).last() == ts[i as int - 1]);
        }
    }
    proof {
        assert(ts.take(n as int) =~= ts);
    }
    acc
}

} // verus!
