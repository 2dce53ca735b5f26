//! The distance catalog.
//!
//! Every function pairs the two vectors index by index up to the shorter
//! length, folds the element terms left to right, and finishes with the
//! closing arithmetic of its formula.  Nothing is guarded: degenerate
//! arithmetic propagates as infinities or the not-a-number marker, exactly
//! as the contracts state.  Each contract equates the result with a ghost
//! formula over the vectors' views, so the whole computation is pinned down.

use vstd::prelude::*;
use crate::rational::rat;
use crate::value::{Val, Number, v_one, v_add, v_sub, v_mul, v_div, v_neg};
use crate::elementary::{v_sqrt, v_ln, v_powf};
use crate::ops::{Rule, PairOp, v_two, views, vec_wf, sum_pairs, max_pairs, sum_squares, fold_sum, fold_max, fold_sum_squares};

verus! {

pub open spec fn euclidean_spec(p: Seq<Val>, q: Seq<Val>) -> Val {
    v_sqrt(sum_pairs(p, q, Rule::SqDiff))
}

/// `sqrt(Σ (p_i - q_i)^2)`
pub fn euclidean(p: &Vec<Number>, q: &Vec<Number>) -> (r: Number)
    requires
        vec_wf(p@),
        vec_wf(q@),
    ensures
        r.wf(),
        r@ == euclidean_spec(views(p@), views(q@)),
{
    fold_sum(p, q, &PairOp::SqDiff).sqrt()
}

pub open spec fn manhattan_spec(p: Seq<Val>, q: Seq<Val>) -> Val {
    sum_pairs(p, q, Rule::AbsDiff)
}

/// `Σ |p_i - q_i|`
pub fn manhattan(p: &Vec<Number>, q: &Vec<Number>) -> (r: Number)
    requires
        vec_wf(p@),
        vec_wf(q@),
    ensures
        r.wf(),
        r@ == manhattan_spec(views(p@), views(q@)),
{
    fold_sum(p, q, &PairOp::AbsDiff)
}

pub open spec fn minkowski_spec(p: Seq<Val>, q: Seq<Val>, d: Val) -> Val {
    v_powf(sum_pairs(p, q, Rule::PowAbsDiff(d)), v_div(v_one(), d))
}

/// `(Σ |p_i - q_i|^d)^(1/d)`
pub fn minkowski(p: &Vec<Number>, q: &Vec<Number>, d: &Number) -> (r: Number)
    requires
        vec_wf(p@),
        vec_wf(q@),
        d.wf(),
    ensures
        r.wf(),
        r@ == minkowski_spec(views(p@), views(q@), d@),
{
    let s = fold_sum(p, q, &PairOp::PowAbsDiff(d.dup()));
    s.powf(&Number::from_u64(1).div(d))
}

pub open spec fn chebyshev_spec(p: Seq<Val>, q: Seq<Val>) -> Val {
    max_pairs(p, q, Rule::AbsDiff, Val::Fin(rat(0, 1)))
}

/// `max_i |p_i - q_i|`, folded from zero
pub fn chebyshev(p: &Vec<Number>, q: &Vec<Number>) -> (r: Number)
    requires
        vec_wf(p@),
        vec_wf(q@),
    ensures
        r.wf(),
        r@ == chebyshev_spec(views(p@), views(q@)),
{
    fold_max(p, q, &PairOp::AbsDiff, Number::from_u64(0))
}

pub open spec fn sorensen_spec(p: Seq<Val>, q: Seq<Val>) -> Val {
    v_div(sum_pairs(p, q, Rule::AbsDiff), sum_pairs(p, q, Rule::SumPq))
}

/// `Σ |p_i - q_i| / Σ (p_i + q_i)`
pub fn sorensen(p: &Vec<Number>, q: &Vec<Number>) -> (r: Number)
    requires
        vec_wf(p@),
        vec_wf(q@),
    ensures
        r.wf(),
        r@ == sorensen_spec(views(p@), views(q@)),
{
    fold_sum(p, q, &PairOp::AbsDiff).div(&fold_sum(p, q, &PairOp::SumPq))
}

pub open spec fn gower_spec(p: Seq<Val>, q: Seq<Val>) -> Val {
    v_div(sum_pairs(p, q, Rule::AbsDiff), Val::Fin(rat(p.len() as int, 1)))
}

/// `Σ |p_i - q_i| / n`, with `n` the length of `p`
pub fn gower(p: &Vec<Number>, q: &Vec<Number>) -> (r: Number)
    requires
        vec_wf(p@),
        vec_wf(q@),
    ensures
        r.wf(),
        r@ == gower_spec(views(p@), views(q@)),
{
    let n = Number::from_u64(p.len() as u64);
    fold_sum(p, q, &PairOp::AbsDiff).div(&n)
}

pub open spec fn soergel_spec(p: Seq<Val>, q: Seq<Val>) -> Val {
    v_div(sum_pairs(p, q, Rule::AbsDiff), sum_pairs(p, q, Rule::MaxPq))
}

/// `Σ |p_i - q_i| / Σ max(p_i, q_i)`
pub fn soergel(p: &Vec<Number>, q: &Vec<Number>) -> (r: Number)
    requires
        vec_wf(p@),
        vec_wf(q@),
    ensures
        r.wf(),
        r@ == soergel_spec(views(p@), views(q@)),
{
    fold_sum(p, q, &PairOp::AbsDiff).div(&fold_sum(p, q, &PairOp::MaxPq))
}

pub open spec fn kulczynski_spec(p: Seq<Val>, q: Seq<Val>) -> Val {
    v_div(sum_pairs(p, q, Rule::AbsDiff), sum_pairs(p, q, Rule::MinPq))
}

/// `Σ |p_i - q_i| / Σ min(p_i, q_i)`
pub fn kulczynski(p: &Vec<Number>, q: &Vec<Number>) -> (r: Number)
    requires
        vec_wf(p@),
        vec_wf(q@),
    ensures
        r.wf(),
        r@ == kulczynski_spec(views(p@), views(q@)),
{
    fold_sum(p, q, &PairOp::AbsDiff).div(&fold_sum(p, q, &PairOp::MinPq))
}

pub open spec fn canberra_spec(p: Seq<Val>, q: Seq<Val>) -> Val {
    sum_pairs(p, q, Rule::CanberraTerm)
}

/// `Σ |p_i - q_i| / (|p_i| + |q_i|)`
pub fn canberra(p: &Vec<Number>, q: &Vec<Number>) -> (r: Number)
    requires
        vec_wf(p@),
        vec_wf(q@),
    ensures
        r.wf(),
        r@ == canberra_spec(views(p@), views(q@)),
{
    fold_sum(p, q, &PairOp::CanberraTerm)
}

pub open spec fn lorentzian_spec(p: Seq<Val>, q: Seq<Val>) -> Val {
    sum_pairs(p, q, Rule::LorentzianTerm)
}

/// `Σ ln(1 + |p_i - q_i|)`
pub fn lorentzian(p: &Vec<Number>, q: &Vec<Number>) -> (r: Number)
    requires
        vec_wf(p@),
        vec_wf(q@),
    ensures
        r.wf(),
        r@ == lorentzian_spec(views(p@), views(q@)),
{
    fold_sum(p, q, &PairOp::LorentzianTerm)
}

pub open spec fn intersection_spec(p: Seq<Val>, q: Seq<Val>) -> Val {
    v_div(sum_pairs(p, q, Rule::AbsDiff), v_two())
}

/// `Σ |p_i - q_i| / 2`
pub fn intersection(p: &Vec<Number>, q: &Vec<Number>) -> (r: Number)
    requires
        vec_wf(p@),
        vec_wf(q@),
    ensures
        r.wf(),
        r@ == intersection_spec(views(p@), views(q@)),
{
    fold_sum(p, q, &PairOp::AbsDiff).div(&Number::from_u64(2))
}

pub open spec fn wave_hedges_spec(p: Seq<Val>, q: Seq<Val>) -> Val {
    sum_pairs(p, q, Rule::WaveHedgesTerm)
}

/// `Σ |p_i - q_i| / max(p_i, q_i)`
pub fn wave_hedges(p: &Vec<Number>, q: &Vec<Number>) -> (r: Number)
    requires
        vec_wf(p@),
        vec_wf(q@),
    ensures
        r.wf(),
        r@ == wave_hedges_spec(views(p@), views(q@)),
{
    fold_sum(p, q, &PairOp::WaveHedgesTerm)
}

pub open spec fn czekanowski_spec(p: Seq<Val>, q: Seq<Val>) -> Val {
    v_sub(
        v_one(),
        v_div(v_mul(v_two(), sum_pairs(p, q, Rule::MinPq)), sum_pairs(p, q, Rule::SumPq)),
    )
}

/// `1 - 2 Σ min(p_i, q_i) / Σ (p_i + q_i)`
pub fn czekanowski(p: &Vec<Number>, q: &Vec<Number>) -> (r: Number)
    requires
        vec_wf(p@),
        vec_wf(q@),
    ensures
        r.wf(),
        r@ == czekanowski_spec(views(p@), views(q@)),
{
    let two = Number::from_u64(2);
    let smin = fold_sum(p, q, &PairOp::MinPq);
    let ssum = fold_sum(p, q, &PairOp::SumPq);
    Number::from_u64(1).sub(&two.mul(&smin).div(&ssum))
}

pub open spec fn motyka_spec(p: Seq<Val>, q: Seq<Val>) -> Val {
    v_div(sum_pairs(p, q, Rule::MaxPq), sum_pairs(p, q, Rule::SumPq))
}

/// `Σ max(p_i, q_i) / Σ (p_i + q_i)`
pub fn motyka(p: &Vec<Number>, q: &Vec<Number>) -> (r: Number)
    requires
        vec_wf(p@),
        vec_wf(q@),
    ensures
        r.wf(),
        r@ == motyka_spec(views(p@), views(q@)),
{
    fold_sum(p, q, &PairOp::MaxPq).div(&fold_sum(p, q, &PairOp::SumPq))
}

pub open spec fn ruzicka_spec(p: Seq<Val>, q: Seq<Val>) -> Val {
    v_div(sum_pairs(p, q, Rule::MinPq), sum_pairs(p, q, Rule::MaxPq))
}

/// `Σ min(p_i, q_i) / Σ max(p_i, q_i)`
pub fn ruzicka(p: &Vec<Number>, q: &Vec<Number>) -> (r: Number)
    requires
        vec_wf(p@),
        vec_wf(q@),
    ensures
        r.wf(),
        r@ == ruzicka_spec(views(p@), views(q@)),
{
    fold_sum(p, q, &PairOp::MinPq).div(&fold_sum(p, q, &PairOp::MaxPq))
}

/// The tanimoto distance has no formula in this catalog: invoking it fails,
/// it never returns a numeric value.
pub fn tanimoto(_p: &Vec<Number>, _q: &Vec<Number>) -> (r: Option<Number>)
    ensures
        r is None,
{
    None
}

pub open spec fn inner_product_spec(p: Seq<Val>, q: Seq<Val>) -> Val {
    sum_pairs(p, q, Rule::Prod)
}

/// `Σ p_i q_i`
pub fn inner_product(p: &Vec<Number>, q: &Vec<Number>) -> (r: Number)
    requires
        vec_wf(p@),
        vec_wf(q@),
    ensures
        r.wf(),
        r@ == inner_product_spec(views(p@), views(q@)),
{
    fold_sum(p, q, &PairOp::Prod)
}

pub open spec fn harmonic_mean_spec(p: Seq<Val>, q: Seq<Val>) -> Val {
    v_mul(v_two(), sum_pairs(p, q, Rule::HarmonicTerm))
}

/// `2 Σ p_i q_i / (p_i + q_i)`
pub fn harmonic_mean(p: &Vec<Number>, q: &Vec<Number>) -> (r: Number)
    requires
        vec_wf(p@),
        vec_wf(q@),
    ensures
        r.wf(),
        r@ == harmonic_mean_spec(views(p@), views(q@)),
{
    Number::from_u64(2).mul(&fold_sum(p, q, &PairOp::HarmonicTerm))
}

/// `Σ p_i q_i / (Σ p_i^2 + Σ q_i^2 - Σ p_i q_i)`: the similarity the jaccard
/// distance complements.
pub open spec fn kumar_hassebrook_spec(p: Seq<Val>, q: Seq<Val>) -> Val {
    v_div(
        sum_pairs(p, q, Rule::Prod),
        v_sub(v_add(sum_squares(p), sum_squares(q)), sum_pairs(p, q, Rule::Prod)),
    )
}

pub open spec fn jaccard_spec(p: Seq<Val>, q: Seq<Val>) -> Val {
    v_sub(v_one(), kumar_hassebrook_spec(p, q))
}

/// `1 - Σ p_i q_i / (Σ p_i^2 + Σ q_i^2 - Σ p_i q_i)`
pub fn jaccard(p: &Vec<Number>, q: &Vec<Number>) -> (r: Number)
    requires
        vec_wf(p@),
        vec_wf(q@),
    ensures
        r.wf(),
        r@ == jaccard_spec(views(p@), views(q@)),
{
    let pq = fold_sum(p, q, &PairOp::Prod);
    let den = fold_sum_squares(p).add(&fold_sum_squares(q)).sub(&pq);
    Number::from_u64(1).sub(&pq.div(&den))
}

pub open spec fn dice_spec(p: Seq<Val>, q: Seq<Val>) -> Val {
    v_div(sum_pairs(p, q, Rule::SqDiff), v_add(sum_squares(p), sum_squares(q)))
}

/// `Σ (p_i - q_i)^2 / (Σ p_i^2 + Σ q_i^2)`: the distance form; the
/// inner-product similarity form lives in the similarity module.
pub fn dice(p: &Vec<Number>, q: &Vec<Number>) -> (r: Number)
    requires
        vec_wf(p@),
        vec_wf(q@),
    ensures
        r.wf(),
        r@ == dice_spec(views(p@), views(q@)),
{
    let den = fold_sum_squares(p).add(&fold_sum_squares(q));
    fold_sum(p, q, &PairOp::SqDiff).div(&den)
}

pub open spec fn bhattacharyya_spec(p: Seq<Val>, q: Seq<Val>) -> Val {
    v_neg(v_ln(sum_pairs(p, q, Rule::SqrtProd)))
}

/// `-ln(Σ sqrt(p_i q_i))`
pub fn bhattacharyya(p: &Vec<Number>, q: &Vec<Number>) -> (r: Number)
    requires
        vec_wf(p@),
        vec_wf(q@),
    ensures
        r.wf(),
        r@ == bhattacharyya_spec(views(p@), views(q@)),
{
    fold_sum(p, q, &PairOp::SqrtProd).ln().neg()
}

pub open spec fn hellinger_spec(p: Seq<Val>, q: Seq<Val>) -> Val {
    v_sqrt(v_mul(v_two(), sum_pairs(p, q, Rule::SqrtDiffSq)))
}

/// `sqrt(2 Σ (sqrt p_i - sqrt q_i)^2)`
pub fn hellinger(p: &Vec<Number>, q: &Vec<Number>) -> (r: Number)
    requires
        vec_wf(p@),
        vec_wf(q@),
    ensures
        r.wf(),
        r@ == hellinger_spec(views(p@), views(q@)),
{
    Number::from_u64(2).mul(&fold_sum(p, q, &PairOp::SqrtDiffSq)).sqrt()
}

pub open spec fn matusita_spec(p: Seq<Val>, q: Seq<Val>) -> Val {
    v_sqrt(sum_pairs(p, q, Rule::SqrtDiffSq))
}

/// `sqrt(Σ (sqrt p_i - sqrt q_i)^2)`
pub fn matusita(p: &Vec<Number>, q: &Vec<Number>) -> (r: Number)
    requires
        vec_wf(p@),
        vec_wf(q@),
    ensures
        r.wf(),
        r@ == matusita_spec(views(p@), views(q@)),
{
    fold_sum(p, q, &PairOp::SqrtDiffSq).sqrt()
}

pub open spec fn squared_chord_spec(p: Seq<Val>, q: Seq<Val>) -> Val {
    sum_pairs(p, q, Rule::SqrtDiffSq)
}

/// `Σ (sqrt p_i - sqrt q_i)^2`
pub fn squared_chord(p: &Vec<Number>, q: &Vec<Number>) -> (r: Number)
    requires
        vec_wf(p@),
        vec_wf(q@),
    ensures
        r.wf(),
        r@ == squared_chord_spec(views(p@), views(q@)),
{
    fold_sum(p, q, &PairOp::SqrtDiffSq)
}

pub open spec fn squared_euclidean_spec(p: Seq<Val>, q: Seq<Val>) -> Val {
    sum_pairs(p, q, Rule::SqDiff)
}

/// `Σ (p_i - q_i)^2`
pub fn squared_euclidean(p: &Vec<Number>, q: &Vec<Number>) -> (r: Number)
    requires
        vec_wf(p@),
        vec_wf(q@),
    ensures
        r.wf(),
        r@ == squared_euclidean_spec(views(p@), views(q@)),
{
    fold_sum(p, q, &PairOp::SqDiff)
}

pub open spec fn pearson_spec(p: Seq<Val>, q: Seq<Val>) -> Val {
    sum_pairs(p, q, Rule::PearsonTerm)
}

/// `Σ (p_i - q_i)^2 / q_i`
pub fn pearson(p: &Vec<Number>, q: &Vec<Number>) -> (r: Number)
    requires
        vec_wf(p@),
        vec_wf(q@),
    ensures
        r.wf(),
        r@ == pearson_spec(views(p@), views(q@)),
{
    fold_sum(p, q, &PairOp::PearsonTerm)
}

pub open spec fn neyman_spec(p: Seq<Val>, q: Seq<Val>) -> Val {
    sum_pairs(p, q, Rule::NeymanTerm)
}

/// `Σ (p_i - q_i)^2 / p_i`
pub fn neyman(p: &Vec<Number>, q: &Vec<Number>) -> (r: Number)
    requires
        vec_wf(p@),
        vec_wf(q@),
    ensures
        r.wf(),
        r@ == neyman_spec(views(p@), views(q@)),
{
    fold_sum(p, q, &PairOp::NeymanTerm)
}

pub open spec fn squared_spec(p: Seq<Val>, q: Seq<Val>) -> Val {
    sum_pairs(p, q, Rule::SquaredTerm)
}

/// The squared chi-square distance: `Σ (p_i - q_i)^2 / (p_i + q_i)`
pub fn squared(p: &Vec<Number>, q: &Vec<Number>) -> (r: Number)
    requires
        vec_wf(p@),
        vec_wf(q@),
    ensures
        r.wf(),
        r@ == squared_spec(views(p@), views(q@)),
{
    fold_sum(p, q, &PairOp::SquaredTerm)
}

pub open spec fn probabilistic_symmetric_spec(p: Seq<Val>, q: Seq<Val>) -> Val {
    v_mul(v_two(), squared_spec(p, q))
}

/// `2 * squared(p, q)`
pub fn probabilistic_symmetric(p: &Vec<Number>, q: &Vec<Number>) -> (r: Number)
    requires
        vec_wf(p@),
        vec_wf(q@),
    ensures
        r.wf(),
        r@ == probabilistic_symmetric_spec(views(p@), views(q@)),
{
    Number::from_u64(2).mul(&squared(p, q))
}

pub open spec fn divergence_spec(p: Seq<Val>, q: Seq<Val>) -> Val {
    v_mul(v_two(), sum_pairs(p, q, Rule::DivergenceTerm))
}

/// `2 Σ (p_i - q_i)^2 / (p_i + q_i)^2`
pub fn divergence(p: &Vec<Number>, q: &Vec<Number>) -> (r: Number)
    requires
        vec_wf(p@),
        vec_wf(q@),
    ensures
        r.wf(),
        r@ == divergence_spec(views(p@), views(q@)),
{
    Number::from_u64(2).mul(&fold_sum(p, q, &PairOp::DivergenceTerm))
}

pub open spec fn clark_spec(p: Seq<Val>, q: Seq<Val>) -> Val {
    v_sqrt(sum_pairs(p, q, Rule::ClarkTerm))
}

/// `sqrt(Σ (|p_i - q_i| / (p_i + q_i))^2)`
pub fn clark(p: &Vec<Number>, q: &Vec<Number>) -> (r: Number)
    requires
        vec_wf(p@),
        vec_wf(q@),
    ensures
        r.wf(),
        r@ == clark_spec(views(p@), views(q@)),
{
    fold_sum(p, q, &PairOp::ClarkTerm).sqrt()
}

pub open spec fn additive_symmetric_spec(p: Seq<Val>, q: Seq<Val>) -> Val {
    sum_pairs(p, q, Rule::AddSymTerm)
}

/// `Σ ((p_i - q_i)^2 (p_i + q_i)) / (p_i q_i)`
pub fn additive_symmetric(p: &Vec<Number>, q: &Vec<Number>) -> (r: Number)
    requires
        vec_wf(p@),
        vec_wf(q@),
    ensures
        r.wf(),
        r@ == additive_symmetric_spec(views(p@), views(q@)),
{
    fold_sum(p, q, &PairOp::AddSymTerm)
}

pub open spec fn kullback_leibler_spec(p: Seq<Val>, q: Seq<Val>) -> Val {
    sum_pairs(p, q, Rule::KullbackTerm)
}

/// `Σ p_i ln(p_i / q_i)`
pub fn kullback_leibler(p: &Vec<Number>, q: &Vec<Number>) -> (r: Number)
    requires
        vec_wf(p@),
        vec_wf(q@),
    ensures
        r.wf(),
        r@ == kullback_leibler_spec(views(p@), views(q@)),
{
    fold_sum(p, q, &PairOp::KullbackTerm)
}

pub open spec fn jeffreys_spec(p: Seq<Val>, q: Seq<Val>) -> Val {
    sum_pairs(p, q, Rule::JeffreysTerm)
}

/// `Σ (p_i - q_i) ln(p_i / q_i)`
pub fn jeffreys(p: &Vec<Number>, q: &Vec<Number>) -> (r: Number)
    requires
        vec_wf(p@),
        vec_wf(q@),
    ensures
        r.wf(),
        r@ == jeffreys_spec(views(p@), views(q@)),
{
    fold_sum(p, q, &PairOp::JeffreysTerm)
}

pub open spec fn k_divergence_spec(p: Seq<Val>, q: Seq<Val>) -> Val {
    sum_pairs(p, q, Rule::KDivTerm)
}

/// `Σ p_i ln(2 p_i / (p_i + q_i))`
pub fn k_divergence(p: &Vec<Number>, q: &Vec<Number>) -> (r: Number)
    requires
        vec_wf(p@),
        vec_wf(q@),
    ensures
        r.wf(),
        r@ == k_divergence_spec(views(p@), views(q@)),
{
    fold_sum(p, q, &PairOp::KDivTerm)
}

pub open spec fn topsoe_spec(p: Seq<Val>, q: Seq<Val>) -> Val {
    sum_pairs(p, q, Rule::TopsoeTerm)
}

/// `Σ [p_i ln(2 p_i / (p_i + q_i)) + q_i ln(2 q_i / (p_i + q_i))]`
pub fn topsoe(p: &Vec<Number>, q: &Vec<Number>) -> (r: Number)
    requires
        vec_wf(p@),
        vec_wf(q@),
    ensures
        r.wf(),
        r@ == topsoe_spec(views(p@), views(q@)),
{
    fold_sum(p, q, &PairOp::TopsoeTerm)
}

pub open spec fn jensen_shannon_spec(p: Seq<Val>, q: Seq<Val>) -> Val {
    v_div(v_add(sum_pairs(p, q, Rule::KDivTerm), sum_pairs(p, q, Rule::KDivTermRev)), v_two())
}

/// `(Σ p_i ln(2 p_i / (p_i + q_i)) + Σ q_i ln(2 q_i / (p_i + q_i))) / 2`
pub fn jensen_shannon(p: &Vec<Number>, q: &Vec<Number>) -> (r: Number)
    requires
        vec_wf(p@),
        vec_wf(q@),
    ensures
        r.wf(),
        r@ == jensen_shannon_spec(views(p@), views(q@)),
{
    let s1 = fold_sum(p, q, &PairOp::KDivTerm);
    let s2 = fold_sum(p, q, &PairOp::KDivTermRev);
    s1.add(&s2).div(&Number::from_u64(2))
}

pub open spec fn jensen_difference_spec(p: Seq<Val>, q: Seq<Val>) -> Val {
    sum_pairs(p, q, Rule::JensenDiffTerm)
}

/// `Σ [(p_i ln p_i + q_i ln q_i) / 2 - ((p_i + q_i) / 2) ln((p_i + q_i) / 2)]`
pub fn jensen_difference(p: &Vec<Number>, q: &Vec<Number>) -> (r: Number)
    requires
        vec_wf(p@),
        vec_wf(q@),
    ensures
        r.wf(),
        r@ == jensen_difference_spec(views(p@), views(q@)),
{
    fold_sum(p, q, &PairOp::JensenDiffTerm)
}

pub open spec fn taneja_spec(p: Seq<Val>, q: Seq<Val>) -> Val {
    sum_pairs(p, q, Rule::TanejaTerm)
}

/// `Σ ((p_i + q_i) / 2) ln((p_i + q_i) / (2 sqrt(p_i q_i)))`
pub fn taneja(p: &Vec<Number>, q: &Vec<Number>) -> (r: Number)
    requires
        vec_wf(p@),
        vec_wf(q@),
    ensures
        r.wf(),
        r@ == taneja_spec(views(p@), views(q@)),
{
    fold_sum(p, q, &PairOp::TanejaTerm)
}

pub open spec fn kumar_johnson_spec(p: Seq<Val>, q: Seq<Val>) -> Val {
    sum_pairs(p, q, Rule::KumarJohnsonTerm)
}

/// `Σ (p_i^2 - q_i^2)^2 / (2 (p_i q_i)^(3/2))`
pub fn kumar_johnson(p: &Vec<Number>, q: &Vec<Number>) -> (r: Number)
    requires
        vec_wf(p@),
        vec_wf(q@),
    ensures
        r.wf(),
        r@ == kumar_johnson_spec(views(p@), views(q@)),
{
    fold_sum(p, q, &PairOp::KumarJohnsonTerm)
}

pub open spec fn avg_spec(p: Seq<Val>, q: Seq<Val>) -> Val {
    v_div(
        v_add(sum_pairs(p, q, Rule::AbsDiff), max_pairs(p, q, Rule::AbsDiff, Val::NInf)),
        v_two(),
    )
}

/// `(Σ |p_i - q_i| + max_i |p_i - q_i|) / 2`, the maximum folded from the
/// negative infinity
pub fn avg(p: &Vec<Number>, q: &Vec<Number>) -> (r: Number)
    requires
        vec_wf(p@),
        vec_wf(q@),
    ensures
        r.wf(),
        r@ == avg_spec(views(p@), views(q@)),
{
    let s = fold_sum(p, q, &PairOp::AbsDiff);
    let m = fold_max(p, q, &PairOp::AbsDiff, Number::neg_inf());
    s.add(&m).div(&Number::from_u64(2))
}

} // verus!
