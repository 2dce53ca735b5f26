//! A catalog of pairwise vector distance and similarity metrics on exact
//! extended numbers.
//!
//! Every metric takes two vectors of [`value::Number`] — exact fractions
//! extended with the two infinities and a not-a-number marker — pairs them
//! index by index up to the shorter length, and folds one element formula
//! over the pairs.  Degenerate arithmetic (division by zero, the logarithm
//! of a non-positive value) is deliberately unguarded and propagates through
//! those markers.  Each function's contract equates its result with a ghost
//! formula over the vectors' views, so what is computed is pinned down
//! completely.
//!
//! The same catalog is exposed three ways, as the crate grew historically:
//! at the crate root, and in the `distance` and `similarity` modules.  Where
//! a name has both a distance and a similarity form (`dice`, `kulczynski`),
//! each module keeps its own; the root carries the distance forms of `dice`
//! and `kulczynski`, and the similarity forms of `cosine`, `kumar_hassebrook`
//! and `fidelity`.

use vstd::prelude::*;

pub mod bigint;
pub mod rational;
pub mod value;
pub mod elementary;
pub mod ops;
pub mod distance;
pub mod similarity;
pub mod laws;

use crate::value::Number;
use crate::ops::{PairOp, views, vec_wf, fold_sum, fold_sum_squares};

verus! {

/// `sqrt(Σ (p_i - q_i)^2)`
pub fn euclidean(p: &Vec<Number>, q: &Vec<Number>) -> (r: Number)
    requires
        vec_wf(p@),
        vec_wf(q@),
    ensures
        r.wf(),
        r@ == distance::euclidean_spec(views(p@), views(q@)),
{
    distance::euclidean(p, q)
}

/// `Σ |p_i - q_i|`
pub fn manhattan(p: &Vec<Number>, q: &Vec<Number>) -> (r: Number)
    requires
        vec_wf(p@),
        vec_wf(q@),
    ensures
        r.wf(),
        r@ == distance::manhattan_spec(views(p@), views(q@)),
{
    distance::manhattan(p, q)
}

/// `(Σ |p_i - q_i|^d)^(1/d)`
pub fn minkowski(p: &Vec<Number>, q: &Vec<Number>, d: &Number) -> (r: Number)
    requires
        vec_wf(p@),
        vec_wf(q@),
        d.wf(),
    ensures
        r.wf(),
        r@ == distance::minkowski_spec(views(p@), views(q@), d@),
{
    distance::minkowski(p, q, d)
}

/// `max_i |p_i - q_i|`, folded from zero
pub fn chebyshev(p: &Vec<Number>, q: &Vec<Number>) -> (r: Number)
    requires
        vec_wf(p@),
        vec_wf(q@),
    ensures
        r.wf(),
        r@ == distance::chebyshev_spec(views(p@), views(q@)),
{
    distance::chebyshev(p, q)
}

/// `Σ |p_i - q_i| / Σ (p_i + q_i)`
pub fn sorensen(p: &Vec<Number>, q: &Vec<Number>) -> (r: Number)
    requires
        vec_wf(p@),
        vec_wf(q@),
    ensures
        r.wf(),
        r@ == distance::sorensen_spec(views(p@), views(q@)),
{
    distance::sorensen(p, q)
}

/// `Σ |p_i - q_i| / n`
pub fn gower(p: &Vec<Number>, q: &Vec<Number>) -> (r: Number)
    requires
        vec_wf(p@),
        vec_wf(q@),
    ensures
        r.wf(),
        r@ == distance::gower_spec(views(p@), views(q@)),
{
    distance::gower(p, q)
}

/// `Σ |p_i - q_i| / Σ max(p_i, q_i)`
pub fn soergel(p: &Vec<Number>, q: &Vec<Number>) -> (r: Number)
    requires
        vec_wf(p@),
        vec_wf(q@),
    ensures
        r.wf(),
        r@ == distance::soergel_spec(views(p@), views(q@)),
{
    distance::soergel(p, q)
}

/// `Σ |p_i - q_i| / Σ min(p_i, q_i)`: the distance form
pub fn kulczynski(p: &Vec<Number>, q: &Vec<Number>) -> (r: Number)
    requires
        vec_wf(p@),
        vec_wf(q@),
    ensures
        r.wf(),
        r@ == distance::kulczynski_spec(views(p@), views(q@)),
{
    distance::kulczynski(p, q)
}

/// `Σ |p_i - q_i| / (|p_i| + |q_i|)`
pub fn canberra(p: &Vec<Number>, q: &Vec<Number>) -> (r: Number)
    requires
        vec_wf(p@),
        vec_wf(q@),
    ensures
        r.wf(),
        r@ == distance::canberra_spec(views(p@), views(q@)),
{
    distance::canberra(p, q)
}

/// `Σ ln(1 + |p_i - q_i|)`
pub fn lorentzian(p: &Vec<Number>, q: &Vec<Number>) -> (r: Number)
    requires
        vec_wf(p@),
        vec_wf(q@),
    ensures
        r.wf(),
        r@ == distance::lorentzian_spec(views(p@), views(q@)),
{
    distance::lorentzian(p, q)
}

/// `Σ |p_i - q_i| / 2`
pub fn intersection(p: &Vec<Number>, q: &Vec<Number>) -> (r: Number)
    requires
        vec_wf(p@),
        vec_wf(q@),
    ensures
        r.wf(),
        r@ == distance::intersection_spec(views(p@), views(q@)),
{
    distance::intersection(p, q)
}

/// `Σ |p_i - q_i| / max(p_i, q_i)`
pub fn wave_hedges(p: &Vec<Number>, q: &Vec<Number>) -> (r: Number)
    requires
        vec_wf(p@),
        vec_wf(q@),
    ensures
        r.wf(),
        r@ == distance::wave_hedges_spec(views(p@), views(q@)),
{
    distance::wave_hedges(p, q)
}

/// `1 - 2 Σ min(p_i, q_i) / Σ (p_i + q_i)`
pub fn czekanowski(p: &Vec<Number>, q: &Vec<Number>) -> (r: Number)
    requires
        vec_wf(p@),
        vec_wf(q@),
    ensures
        r.wf(),
        r@ == distance::czekanowski_spec(views(p@), views(q@)),
{
    distance::czekanowski(p, q)
}

/// `Σ max(p_i, q_i) / Σ (p_i + q_i)`
pub fn motyka(p: &Vec<Number>, q: &Vec<Number>) -> (r: Number)
    requires
        vec_wf(p@),
        vec_wf(q@),
    ensures
        r.wf(),
        r@ == distance::motyka_spec(views(p@), views(q@)),
{
    distance::motyka(p, q)
}

/// `Σ min(p_i, q_i) / Σ max(p_i, q_i)`
pub fn ruzicka(p: &Vec<Number>, q: &Vec<Number>) -> (r: Number)
    requires
        vec_wf(p@),
        vec_wf(q@),
    ensures
        r.wf(),
        r@ == distance::ruzicka_spec(views(p@), views(q@)),
{
    distance::ruzicka(p, q)
}

/// The tanimoto distance has no formula in this catalog: invoking it fails,
/// it never returns a numeric value.
pub fn tanimoto(p: &Vec<Number>, q: &Vec<Number>) -> (r: Option<Number>)
    ensures
        r is None,
{
    distance::tanimoto(p, q)
}

/// `Σ p_i q_i`
pub fn inner_product(p: &Vec<Number>, q: &Vec<Number>) -> (r: Number)
    requires
        vec_wf(p@),
        vec_wf(q@),
    ensures
        r.wf(),
        r@ == distance::inner_product_spec(views(p@), views(q@)),
{
    distance::inner_product(p, q)
}

/// `2 Σ p_i q_i / (p_i + q_i)`
pub fn harmonic_mean(p: &Vec<Number>, q: &Vec<Number>) -> (r: Number)
    requires
        vec_wf(p@),
        vec_wf(q@),
    ensures
        r.wf(),
        r@ == distance::harmonic_mean_spec(views(p@), views(q@)),
{
    distance::harmonic_mean(p, q)
}

/// `Σ p_i q_i / (sqrt(Σ p_i^2) * sqrt(Σ q_i^2))`
pub fn cosine(p: &Vec<Number>, q: &Vec<Number>) -> (r: Number)
    requires
        vec_wf(p@),
        vec_wf(q@),
    ensures
        r.wf(),
        r@ == similarity::cosine_spec(views(p@), views(q@)),
{
    similarity::cosine(p, q)
}

/// `Σ p_i q_i / (Σ p_i^2 + Σ q_i^2 - Σ p_i q_i)`: the similarity the jaccard
/// distance complements
pub fn kumar_hassebrook(p: &Vec<Number>, q: &Vec<Number>) -> (r: Number)
    requires
        vec_wf(p@),
        vec_wf(q@),
    ensures
        r.wf(),
        r@ == distance::kumar_hassebrook_spec(views(p@), views(q@)),
{
    let pq = fold_sum(p, q, &PairOp::Prod);
    let den = fold_sum_squares(p).add(&fold_sum_squares(q)).sub(&pq);
    pq.div(&den)
}

/// `1 - Σ p_i q_i / (Σ p_i^2 + Σ q_i^2 - Σ p_i q_i)`
pub fn jaccard(p: &Vec<Number>, q: &Vec<Number>) -> (r: Number)
    requires
        vec_wf(p@),
        vec_wf(q@),
    ensures
        r.wf(),
        r@ == distance::jaccard_spec(views(p@), views(q@)),
{
    distance::jaccard(p, q)
}

/// `Σ (p_i - q_i)^2 / (Σ p_i^2 + Σ q_i^2)`: the distance form
pub fn dice(p: &Vec<Number>, q: &Vec<Number>) -> (r: Number)
    requires
        vec_wf(p@),
        vec_wf(q@),
    ensures
        r.wf(),
        r@ == distance::dice_spec(views(p@), views(q@)),
{
    distance::dice(p, q)
}

/// `Σ sqrt(p_i q_i)`
pub fn fidelity(p: &Vec<Number>, q: &Vec<Number>) -> (r: Number)
    requires
        vec_wf(p@),
        vec_wf(q@),
    ensures
        r.wf(),
        r@ == similarity::fidelity_spec(views(p@), views(q@)),
{
    similarity::fidelity(p, q)
}

/// `-ln(Σ sqrt(p_i q_i))`
pub fn bhattacharyya(p: &Vec<Number>, q: &Vec<Number>) -> (r: Number)
    requires
        vec_wf(p@),
        vec_wf(q@),
    ensures
        r.wf(),
        r@ == distance::bhattacharyya_spec(views(p@), views(q@)),
{
    distance::bhattacharyya(p, q)
}

/// `sqrt(2 Σ (sqrt p_i - sqrt q_i)^2)`
pub fn hellinger(p: &Vec<Number>, q: &Vec<Number>) -> (r: Number)
    requires
        vec_wf(p@),
        vec_wf(q@),
    ensures
        r.wf(),
        r@ == distance::hellinger_spec(views(p@), views(q@)),
{
    distance::hellinger(p, q)
}

/// `sqrt(Σ (sqrt p_i - sqrt q_i)^2)`
pub fn matusita(p: &Vec<Number>, q: &Vec<Number>) -> (r: Number)
    requires
        vec_wf(p@),
        vec_wf(q@),
    ensures
        r.wf(),
        r@ == distance::matusita_spec(views(p@), views(q@)),
{
    distance::matusita(p, q)
}

/// `Σ (sqrt p_i - sqrt q_i)^2`
pub fn squared_chord(p: &Vec<Number>, q: &Vec<Number>) -> (r: Number)
    requires
        vec_wf(p@),
        vec_wf(q@),
    ensures
        r.wf(),
        r@ == distance::squared_chord_spec(views(p@), views(q@)),
{
    distance::squared_chord(p, q)
}

/// `Σ (p_i - q_i)^2`
pub fn squared_euclidean(p: &Vec<Number>, q: &Vec<Number>) -> (r: Number)
    requires
        vec_wf(p@),
        vec_wf(q@),
    ensures
        r.wf(),
        r@ == distance::squared_euclidean_spec(views(p@), views(q@)),
{
    distance::squared_euclidean(p, q)
}

/// `Σ (p_i - q_i)^2 / q_i`
pub fn pearson(p: &Vec<Number>, q: &Vec<Number>) -> (r: Number)
    requires
        vec_wf(p@),
        vec_wf(q@),
    ensures
        r.wf(),
        r@ == distance::pearson_spec(views(p@), views(q@)),
{
    distance::pearson(p, q)
}

/// `Σ (p_i - q_i)^2 / p_i`
pub fn neyman(p: &Vec<Number>, q: &Vec<Number>) -> (r: Number)
    requires
        vec_wf(p@),
        vec_wf(q@),
    ensures
        r.wf(),
        r@ == distance::neyman_spec(views(p@), views(q@)),
{
    distance::neyman(p, q)
}

/// `Σ (p_i - q_i)^2 / (p_i + q_i)`
pub fn squared(p: &Vec<Number>, q: &Vec<Number>) -> (r: Number)
    requires
        vec_wf(p@),
        vec_wf(q@),
    ensures
        r.wf(),
        r@ == distance::squared_spec(views(p@), views(q@)),
{
    distance::squared(p, q)
}

/// `2 * squared(p, q)`
pub fn probabilistic_symmetric(p: &Vec<Number>, q: &Vec<Number>) -> (r: Number)
    requires
        vec_wf(p@),
        vec_wf(q@),
    ensures
        r.wf(),
        r@ == distance::probabilistic_symmetric_spec(views(p@), views(q@)),
{
    distance::probabilistic_symmetric(p, q)
}

/// `2 Σ (p_i - q_i)^2 / (p_i + q_i)^2`
pub fn divergence(p: &Vec<Number>, q: &Vec<Number>) -> (r: Number)
    requires
        vec_wf(p@),
        vec_wf(q@),
    ensures
        r.wf(),
        r@ == distance::divergence_spec(views(p@), views(q@)),
{
    distance::divergence(p, q)
}

/// `sqrt(Σ (|p_i - q_i| / (p_i + q_i))^2)`
pub fn clark(p: &Vec<Number>, q: &Vec<Number>) -> (r: Number)
    requires
        vec_wf(p@),
        vec_wf(q@),
    ensures
        r.wf(),
        r@ == distance::clark_spec(views(p@), views(q@)),
{
    distance::clark(p, q)
}

/// `Σ ((p_i - q_i)^2 (p_i + q_i)) / (p_i q_i)`
pub fn additive_symmetric(p: &Vec<Number>, q: &Vec<Number>) -> (r: Number)
    requires
        vec_wf(p@),
        vec_wf(q@),
    ensures
        r.wf(),
        r@ == distance::additive_symmetric_spec(views(p@), views(q@)),
{
    distance::additive_symmetric(p, q)
}

/// `Σ p_i ln(p_i / q_i)`
pub fn kullback_leibler(p: &Vec<Number>, q: &Vec<Number>) -> (r: Number)
    requires
        vec_wf(p@),
        vec_wf(q@),
    ensures
        r.wf(),
        r@ == distance::kullback_leibler_spec(views(p@), views(q@)),
{
    distance::kullback_leibler(p, q)
}

/// `Σ (p_i - q_i) ln(p_i / q_i)`
pub fn jeffreys(p: &Vec<Number>, q: &Vec<Number>) -> (r: Number)
    requires
        vec_wf(p@),
        vec_wf(q@),
    ensures
        r.wf(),
        r@ == distance::jeffreys_spec(views(p@), views(q@)),
{
    distance::jeffreys(p, q)
}

/// `Σ p_i ln(2 p_i / (p_i + q_i))`
pub fn k_divergence(p: &Vec<Number>, q: &Vec<Number>) -> (r: Number)
    requires
        vec_wf(p@),
        vec_wf(q@),
    ensures
        r.wf(),
        r@ == distance::k_divergence_spec(views(p@), views(q@)),
{
    distance::k_divergence(p, q)
}

/// `Σ [p_i ln(2 p_i / (p_i + q_i)) + q_i ln(2 q_i / (p_i + q_i))]`
pub fn topsoe(p: &Vec<Number>, q: &Vec<Number>) -> (r: Number)
    requires
        vec_wf(p@),
        vec_wf(q@),
    ensures
        r.wf(),
        r@ == distance::topsoe_spec(views(p@), views(q@)),
{
    distance::topsoe(p, q)
}

/// `(Σ p_i ln(2 p_i / (p_i + q_i)) + Σ q_i ln(2 q_i / (p_i + q_i))) / 2`
pub fn jensen_shannon(p: &Vec<Number>, q: &Vec<Number>) -> (r: Number)
    requires
        vec_wf(p@),
        vec_wf(q@),
    ensures
        r.wf(),
        r@ == distance::jensen_shannon_spec(views(p@), views(q@)),
{
    distance::jensen_shannon(p, q)
}

/// `Σ [(p_i ln p_i + q_i ln q_i) / 2 - ((p_i + q_i) / 2) ln((p_i + q_i) / 2)]`
pub fn jensen_difference(p: &Vec<Number>, q: &Vec<Number>) -> (r: Number)
    requires
        vec_wf(p@),
        vec_wf(q@),
    ensures
        r.wf(),
        r@ == distance::jensen_difference_spec(views(p@), views(q@)),
{
    distance::jensen_difference(p, q)
}

/// `Σ ((p_i + q_i) / 2) ln((p_i + q_i) / (2 sqrt(p_i q_i)))`
pub fn taneja(p: &Vec<Number>, q: &Vec<Number>) -> (r: Number)
    requires
        vec_wf(p@),
        vec_wf(q@),
    ensures
        r.wf(),
        r@ == distance::taneja_spec(views(p@), views(q@)),
{
    distance::taneja(p, q)
}

/// `Σ (p_i^2 - q_i^2)^2 / (2 (p_i q_i)^(3/2))`
pub fn kumar_johnson(p: &Vec<Number>, q: &Vec<Number>) -> (r: Number)
    requires
        vec_wf(p@),
        vec_wf(q@),
    ensures
        r.wf(),
        r@ == distance::kumar_johnson_spec(views(p@), views(q@)),
{
    distance::kumar_johnson(p, q)
}

/// `(Σ |p_i - q_i| + max_i |p_i - q_i|) / 2`
pub fn avg(p: &Vec<Number>, q: &Vec<Number>) -> (r: Number)
    requires
        vec_wf(p@),
        vec_wf(q@),
    ensures
        r.wf(),
        r@ == distance::avg_spec(views(p@), views(q@)),
{
    distance::avg(p, q)
}

} // verus!
