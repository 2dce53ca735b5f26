//! The similarity catalog: larger values mean more alike.

use vstd::prelude::*;
use crate::value::{Val, Number, v_one, v_add, v_mul, v_div};
use crate::elementary::v_sqrt;
use crate::ops::{Rule, PairOp, v_two, views, vec_wf, sum_pairs, sum_squares, fold_sum, fold_sum_squares};

verus! {

pub open spec fn cosine_spec(p: Seq<Val>, q: Seq<Val>) -> Val {
    v_div(
        sum_pairs(p, q, Rule::Prod),
        v_mul(v_sqrt(sum_squares(p)), v_sqrt(sum_squares(q))),
    )
}

/// `Σ p_i q_i / (sqrt(Σ p_i^2) * sqrt(Σ q_i^2))`
pub fn cosine(p: &Vec<Number>, q: &Vec<Number>) -> (r: Number)
    requires
        vec_wf(p@),
        vec_wf(q@),
    ensures
        r.wf(),
        r@ == cosine_spec(views(p@), views(q@)),
{
    let numerator = fold_sum(p, q, &PairOp::Prod);
    let denominator = fold_sum_squares(p).sqrt().mul(&fold_sum_squares(q).sqrt());
    numerator.div(&denominator)
}

pub open spec fn kulczynski_spec(p: Seq<Val>, q: Seq<Val>) -> Val {
    v_div(v_one(), crate::distance::kulczynski_spec(p, q))
}

/// `1 / kulczynski_distance(p, q)`
pub fn kulczynski(p: &Vec<Number>, q: &Vec<Number>) -> (r: Number)
    requires
        vec_wf(p@),
        vec_wf(q@),
    ensures
        r.wf(),
        r@ == kulczynski_spec(views(p@), views(q@)),
{
    Number::from_u64(1).div(&crate::distance::kulczynski(p, q))
}

pub open spec fn dice_spec(p: Seq<Val>, q: Seq<Val>) -> Val {
    v_div(
        v_mul(v_two(), sum_pairs(p, q, Rule::Prod)),
        v_add(sum_squares(p), sum_squares(q)),
    )
}

/// `2 Σ p_i q_i / (Σ p_i^2 + Σ q_i^2)`: the similarity form of dice; the
/// squared-difference distance form lives in the distance module.
pub fn dice(p: &Vec<Number>, q: &Vec<Number>) -> (r: Number)
    requires
        vec_wf(p@),
        vec_wf(q@),
    ensures
        r.wf(),
        r@ == dice_spec(views(p@), views(q@)),
{
    let num = Number::from_u64(2).mul(&fold_sum(p, q, &PairOp::Prod));
    let den = fold_sum_squares(p).add(&fold_sum_squares(q));
    num.div(&den)
}

pub open spec fn fidelity_spec(p: Seq<Val>, q: Seq<Val>) -> Val {
    sum_pairs(p, q, Rule::SqrtProd)
}

/// `Σ sqrt(p_i q_i)`
pub fn fidelity(p: &Vec<Number>, q: &Vec<Number>) -> (r: Number)
    requires
        vec_wf(p@),
        vec_wf(q@),
    ensures
        r.wf(),
        r@ == fidelity_spec(views(p@), views(q@)),
{
    fold_sum(p, q, &PairOp::SqrtProd)
}

} // verus!
