//! Laws of the catalog, proved over the ghost formulas.
//!
//! Fractions stay unreduced, so two ways of computing one value may differ
//! in their components; `v_eq` states equality of values.  Symmetry holds
//! componentwise for every rule whose element formula treats the two entries
//! alike; a paired minimum or maximum instead picks one of two value-equal
//! components, so for `soergel`, `wave_hedges`, `czekanowski`, `motyka` and
//! `ruzicka` symmetry is stated as `v_eq`.  Self-distance is zero for every
//! distance formula defined at equal entries, under the weakest hypothesis
//! that keeps its denominators and logarithms meaningful there.

use vstd::prelude::*;
use vstd::seq_lib::*;
use crate::rational::{Rat, rat, rat_eq, rat_lt, rat_add, rat_sub, rat_mul, rat_div, rat_neg, rat_abs, pow2_int};
use crate::value::{Val, v_wf, v_one, v_add, v_sub, v_mul, v_div, v_abs, v_neg, v_sign, v_lt, v_max, v_min};
use crate::elementary::{v_sqrt, v_ln, rat_sqrt, lemma_floor_sqrt_unique, shrink, zpow_at, atanh_partial, ln_rat_approx, ln_norm, lemma_atanh_pos, round256};
use crate::ops::{Rule, v_two, zip_terms, v_sum, v_max_fold, sum_pairs, max_pairs, sum_squares, sq_terms};
use crate::distance;
use crate::similarity;

verus! {

/// Equality of values: same degenerate marker, or cross-multiplied equal
/// fractions.
pub open spec fn v_eq(a: Val, b: Val) -> bool {
    match (a, b) {
        (Val::Fin(x), Val::Fin(y)) => rat_eq(x, y),
        (Val::PInf, Val::PInf) => true,
        (Val::NInf, Val::NInf) => true,
        (Val::Nan, Val::Nan) => true,
        _ => false,
    }
}

/// A finite, well-formed zero.
pub open spec fn v_is_zero(a: Val) -> bool {
    match a {
        Val::Fin(x) => x.n == 0 && x.d > 0,
        _ => false,
    }
}

/// A finite, well-formed one.
pub open spec fn v_is_one(a: Val) -> bool {
    match a {
        Val::Fin(x) => x.n == x.d && x.d > 0,
        _ => false,
    }
}

pub open spec fn all_fin_wf(p: Seq<Val>) -> bool {
    forall|i: int| 0 <= i < p.len() ==> (#[trigger] p[i]) is Fin && v_wf(p[i])
}

// ---------------------------------------------------------------------------
// Commutation of the element formulas
// ---------------------------------------------------------------------------

proof fn lemma_rat_comm(x: Rat, y: Rat)
    ensures
        rat_add(x, y) == rat_add(y, x),
        rat_mul(x, y) == rat_mul(y, x),
        rat_abs(rat_sub(x, y)) == rat_abs(rat_sub(y, x)),
        rat_mul(rat_sub(x, y), rat_sub(x, y)) == rat_mul(rat_sub(y, x), rat_sub(y, x)),
{
    assert(x.d * y.d == y.d * x.d) by (nonlinear_arith);
    assert(x.n * y.n == y.n * x.n) by (nonlinear_arith);
    let s = rat_sub(x, y);
    let t = rat_sub(y, x);
    assert(t.n == -s.n);
    assert(t.d == s.d) by (nonlinear_arith)
        requires
            t.d == y.d * x.d,
            s.d == x.d * y.d,
    ;
    assert((-s.n) * (-s.n) == s.n * s.n) by (nonlinear_arith);
}

proof fn lemma_v_add_comm(a: Val, b: Val)
    ensures
        v_add(a, b) == v_add(b, a),
{
    match (a, b) {
        (Val::Fin(x), Val::Fin(y)) => {
            lemma_rat_comm(x, y);
        },
        _ => {},
    }
}

proof fn lemma_v_mul_comm(a: Val, b: Val)
    ensures
        v_mul(a, b) == v_mul(b, a),
{
    match (a, b) {
        (Val::Fin(x), Val::Fin(y)) => {
            lemma_rat_comm(x, y);
        },
        _ => {
            assert(v_sign(a) * v_sign(b) == v_sign(b) * v_sign(a)) by (nonlinear_arith);
        },
    }
}

proof fn lemma_abs_sub_comm(a: Val, b: Val)
    ensures
        v_abs(v_sub(a, b)) == v_abs(v_sub(b, a)),
{
    match (a, b) {
        (Val::Fin(x), Val::Fin(y)) => {
            lemma_rat_comm(x, y);
            assert((-y.n) * x.d == -(y.n * x.d)) by (nonlinear_arith);
            assert((-x.n) * y.d == -(x.n * y.d)) by (nonlinear_arith);
            assert(rat_add(x, rat_neg(y)) == rat_sub(x, y));
            assert(rat_add(y, rat_neg(x)) == rat_sub(y, x));
        },
        _ => {},
    }
}

proof fn lemma_sq_sub_comm(a: Val, b: Val)
    ensures
        v_mul(v_sub(a, b), v_sub(a, b)) == v_mul(v_sub(b, a), v_sub(b, a)),
{
    match (a, b) {
        (Val::Fin(x), Val::Fin(y)) => {
            lemma_rat_comm(x, y);
            assert((-y.n) * x.d == -(y.n * x.d)) by (nonlinear_arith);
            assert((-x.n) * y.d == -(x.n * y.d)) by (nonlinear_arith);
            assert(rat_add(x, rat_neg(y)) == rat_sub(x, y));
            assert(rat_add(y, rat_neg(x)) == rat_sub(y, x));
        },
        (Val::Fin(x), _) => {},
        (_, Val::Fin(y)) => {},
        _ => {},
    }
}

/// The rules whose element formula treats the two entries alike,
/// componentwise.
pub open spec fn symmetric_rule(r: Rule) -> bool {
    match r {
        Rule::AbsDiff => true,
        Rule::SqDiff => true,
        Rule::SumPq => true,
        Rule::Prod => true,
        Rule::PowAbsDiff(_) => true,
        Rule::CanberraTerm => true,
        Rule::LorentzianTerm => true,
        Rule::HarmonicTerm => true,
        Rule::SqrtProd => true,
        Rule::SqrtDiffSq => true,
        Rule::SquaredTerm => true,
        Rule::DivergenceTerm => true,
        Rule::ClarkTerm => true,
        Rule::AddSymTerm => true,
        Rule::TopsoeTerm => true,
        Rule::JensenDiffTerm => true,
        Rule::TanejaTerm => true,
        Rule::KumarJohnsonTerm => true,
        _ => false,
    }
}

proof fn lemma_apply_comm(r: Rule, a: Val, b: Val)
    requires
        symmetric_rule(r),
    ensures
        crate::ops::apply_rule(r, a, b) == crate::ops::apply_rule(r, b, a),
{
    lemma_rat_comm(rat(0, 1), rat(0, 1));
    lemma_v_add_comm(a, b);
    lemma_v_mul_comm(a, b);
    lemma_abs_sub_comm(a, b);
    lemma_sq_sub_comm(a, b);
    lemma_v_add_comm(v_abs(a), v_abs(b));
    lemma_v_mul_comm(v_sub(a, b), v_add(a, b));
    lemma_v_mul_comm(v_sub(b, a), v_add(b, a));
    match r {
        Rule::SqrtDiffSq => {
            lemma_sq_sub_comm(v_sqrt(a), v_sqrt(b));
        },
        Rule::ClarkTerm => {
            let u = v_div(v_abs(v_sub(a, b)), v_add(a, b));
            lemma_v_mul_comm(u, u);
        },
        Rule::AddSymTerm => {
            lemma_v_mul_comm(v_mul(v_sub(a, b), v_sub(a, b)), v_add(a, b));
            lemma_v_mul_comm(v_mul(v_sub(b, a), v_sub(b, a)), v_add(b, a));
        },
        Rule::TopsoeTerm => {
            let ta = v_mul(a, v_ln(v_div(v_mul(v_two(), a), v_add(a, b))));
            let tb = v_mul(b, v_ln(v_div(v_mul(v_two(), b), v_add(a, b))));
            lemma_v_add_comm(ta, tb);
        },
        Rule::JensenDiffTerm => {
            lemma_v_add_comm(v_mul(a, v_ln(a)), v_mul(b, v_ln(b)));
        },
        Rule::KumarJohnsonTerm => {
            lemma_sq_sub_comm(v_mul(a, a), v_mul(b, b));
            lemma_v_mul_comm(a, a);
            lemma_v_mul_comm(b, b);
        },
        _ => {},
    }
}

/// Pairing commutes for a symmetric rule.
proof fn lemma_zip_comm(p: Seq<Val>, q: Seq<Val>, r: Rule)
    requires
        symmetric_rule(r),
    ensures
        zip_terms(p, q, r) == zip_terms(q, p, r),
{
    let s1 = zip_terms(p, q, r);
    let s2 = zip_terms(q, p, r);
    assert forall|i: int| 0 <= i < s1.len() implies s1[i] == s2[i] by {
        lemma_apply_comm(r, p[i], q[i]);
    }
    assert(s1 =~= s2);
}

proof fn lemma_sum_comm(p: Seq<Val>, q: Seq<Val>, r: Rule)
    requires
        symmetric_rule(r),
    ensures
        sum_pairs(p, q, r) == sum_pairs(q, p, r),
{
    lemma_zip_comm(p, q, r);
}

// ---------------------------------------------------------------------------
// Symmetry of the catalog (every metric whose formula is componentwise
// symmetric; `pearson`, `neyman`, `kullback_leibler`, `jeffreys`,
// `k_divergence` and the `kulczynski` forms are asymmetric by definition)
// ---------------------------------------------------------------------------

/// `euclidean(p, q) == euclidean(q, p)`
pub proof fn lemma_euclidean_symmetric(p: Seq<Val>, q: Seq<Val>)
    ensures
        distance::euclidean_spec(p, q) == distance::euclidean_spec(q, p),
{
    lemma_sum_comm(p, q, Rule::SqDiff);
}

/// `manhattan(p, q) == manhattan(q, p)`
pub proof fn lemma_manhattan_symmetric(p: Seq<Val>, q: Seq<Val>)
    ensures
        distance::manhattan_spec(p, q) == distance::manhattan_spec(q, p),
{
    lemma_sum_comm(p, q, Rule::AbsDiff);
}

/// `minkowski(p, q, d) == minkowski(q, p, d)`
pub proof fn lemma_minkowski_symmetric(p: Seq<Val>, q: Seq<Val>, d: Val)
    ensures
        distance::minkowski_spec(p, q, d) == distance::minkowski_spec(q, p, d),
{
    lemma_sum_comm(p, q, Rule::PowAbsDiff(d));
}

/// `sorensen(p, q) == sorensen(q, p)`
pub proof fn lemma_sorensen_symmetric(p: Seq<Val>, q: Seq<Val>)
    ensures
        distance::sorensen_spec(p, q) == distance::sorensen_spec(q, p),
{
    lemma_sum_comm(p, q, Rule::AbsDiff);
    lemma_sum_comm(p, q, Rule::SumPq);
}

/// `gower(p, q) == gower(q, p)` for vectors of one length: the divisor is
/// the first vector's length.
pub proof fn lemma_gower_symmetric(p: Seq<Val>, q: Seq<Val>)
    requires
        p.len() == q.len(),
    ensures
        distance::gower_spec(p, q) == distance::gower_spec(q, p),
{
    lemma_sum_comm(p, q, Rule::AbsDiff);
}

/// `canberra(p, q) == canberra(q, p)`
pub proof fn lemma_canberra_symmetric(p: Seq<Val>, q: Seq<Val>)
    ensures
        distance::canberra_spec(p, q) == distance::canberra_spec(q, p),
{
    lemma_sum_comm(p, q, Rule::CanberraTerm);
}

/// `lorentzian(p, q) == lorentzian(q, p)`
pub proof fn lemma_lorentzian_symmetric(p: Seq<Val>, q: Seq<Val>)
    ensures
        distance::lorentzian_spec(p, q) == distance::lorentzian_spec(q, p),
{
    lemma_sum_comm(p, q, Rule::LorentzianTerm);
}

/// `intersection(p, q) == intersection(q, p)`
pub proof fn lemma_intersection_symmetric(p: Seq<Val>, q: Seq<Val>)
    ensures
        distance::intersection_spec(p, q) == distance::intersection_spec(q, p),
{
    lemma_sum_comm(p, q, Rule::AbsDiff);
}

/// `inner_product(p, q) == inner_product(q, p)`
pub proof fn lemma_inner_product_symmetric(p: Seq<Val>, q: Seq<Val>)
    ensures
        distance::inner_product_spec(p, q) == distance::inner_product_spec(q, p),
{
    lemma_sum_comm(p, q, Rule::Prod);
}

/// `harmonic_mean(p, q) == harmonic_mean(q, p)`
pub proof fn lemma_harmonic_mean_symmetric(p: Seq<Val>, q: Seq<Val>)
    ensures
        distance::harmonic_mean_spec(p, q) == distance::harmonic_mean_spec(q, p),
{
    lemma_sum_comm(p, q, Rule::HarmonicTerm);
}

/// `kumar_hassebrook(p, q) == kumar_hassebrook(q, p)`
pub proof fn lemma_kumar_hassebrook_symmetric(p: Seq<Val>, q: Seq<Val>)
    ensures
        distance::kumar_hassebrook_spec(p, q) == distance::kumar_hassebrook_spec(q, p),
{
    lemma_sum_comm(p, q, Rule::Prod);
    lemma_v_add_comm(sum_squares(p), sum_squares(q));
}

/// `jaccard(p, q) == jaccard(q, p)`
pub proof fn lemma_jaccard_symmetric(p: Seq<Val>, q: Seq<Val>)
    ensures
        distance::jaccard_spec(p, q) == distance::jaccard_spec(q, p),
{
    lemma_kumar_hassebrook_symmetric(p, q);
}

/// `dice(p, q) == dice(q, p)`, the distance form
pub proof fn lemma_dice_symmetric(p: Seq<Val>, q: Seq<Val>)
    ensures
        distance::dice_spec(p, q) == distance::dice_spec(q, p),
{
    lemma_sum_comm(p, q, Rule::SqDiff);
    lemma_v_add_comm(sum_squares(p), sum_squares(q));
}

/// `cosine(p, q) == cosine(q, p)`
pub proof fn lemma_cosine_symmetric(p: Seq<Val>, q: Seq<Val>)
    ensures
        similarity::cosine_spec(p, q) == similarity::cosine_spec(q, p),
{
    lemma_sum_comm(p, q, Rule::Prod);
    lemma_v_mul_comm(v_sqrt(sum_squares(p)), v_sqrt(sum_squares(q)));
}

/// `dice(p, q) == dice(q, p)`, the similarity form
pub proof fn lemma_dice_similarity_symmetric(p: Seq<Val>, q: Seq<Val>)
    ensures
        similarity::dice_spec(p, q) == similarity::dice_spec(q, p),
{
    lemma_sum_comm(p, q, Rule::Prod);
    lemma_v_add_comm(sum_squares(p), sum_squares(q));
}

/// `fidelity(p, q) == fidelity(q, p)`
pub proof fn lemma_fidelity_symmetric(p: Seq<Val>, q: Seq<Val>)
    ensures
        similarity::fidelity_spec(p, q) == similarity::fidelity_spec(q, p),
{
    lemma_sum_comm(p, q, Rule::SqrtProd);
}

/// `bhattacharyya(p, q) == bhattacharyya(q, p)`
pub proof fn lemma_bhattacharyya_symmetric(p: Seq<Val>, q: Seq<Val>)
    ensures
        distance::bhattacharyya_spec(p, q) == distance::bhattacharyya_spec(q, p),
{
    lemma_sum_comm(p, q, Rule::SqrtProd);
}

/// `hellinger(p, q) == hellinger(q, p)`
pub proof fn lemma_hellinger_symmetric(p: Seq<Val>, q: Seq<Val>)
    ensures
        distance::hellinger_spec(p, q) == distance::hellinger_spec(q, p),
{
    lemma_sum_comm(p, q, Rule::SqrtDiffSq);
}

/// `matusita(p, q) == matusita(q, p)`
pub proof fn lemma_matusita_symmetric(p: Seq<Val>, q: Seq<Val>)
    ensures
        distance::matusita_spec(p, q) == distance::matusita_spec(q, p),
{
    lemma_sum_comm(p, q, Rule::SqrtDiffSq);
}

/// `squared_chord(p, q) == squared_chord(q, p)`
pub proof fn lemma_squared_chord_symmetric(p: Seq<Val>, q: Seq<Val>)
    ensures
        distance::squared_chord_spec(p, q) == distance::squared_chord_spec(q, p),
{
    lemma_sum_comm(p, q, Rule::SqrtDiffSq);
}

/// `squared_euclidean(p, q) == squared_euclidean(q, p)`
pub proof fn lemma_squared_euclidean_symmetric(p: Seq<Val>, q: Seq<Val>)
    ensures
        distance::squared_euclidean_spec(p, q) == distance::squared_euclidean_spec(q, p),
{
    lemma_sum_comm(p, q, Rule::SqDiff);
}

/// `squared(p, q) == squared(q, p)`
pub proof fn lemma_squared_symmetric(p: Seq<Val>, q: Seq<Val>)
    ensures
        distance::squared_spec(p, q) == distance::squared_spec(q, p),
{
    lemma_sum_comm(p, q, Rule::SquaredTerm);
}

/// `probabilistic_symmetric(p, q) == probabilistic_symmetric(q, p)`
pub proof fn lemma_probabilistic_symmetric_symmetric(p: Seq<Val>, q: Seq<Val>)
    ensures
        distance::probabilistic_symmetric_spec(p, q) == distance::probabilistic_symmetric_spec(
            q,
            p,
        ),
{
    lemma_squared_symmetric(p, q);
}

/// `divergence(p, q) == divergence(q, p)`
pub proof fn lemma_divergence_symmetric(p: Seq<Val>, q: Seq<Val>)
    ensures
        distance::divergence_spec(p, q) == distance::divergence_spec(q, p),
{
    lemma_sum_comm(p, q, Rule::DivergenceTerm);
}

/// `clark(p, q) == clark(q, p)`
pub proof fn lemma_clark_symmetric(p: Seq<Val>, q: Seq<Val>)
    ensures
        distance::clark_spec(p, q) == distance::clark_spec(q, p),
{
    lemma_sum_comm(p, q, Rule::ClarkTerm);
}

/// `additive_symmetric(p, q) == additive_symmetric(q, p)`
pub proof fn lemma_additive_symmetric_symmetric(p: Seq<Val>, q: Seq<Val>)
    ensures
        distance::additive_symmetric_spec(p, q) == distance::additive_symmetric_spec(q, p),
{
    lemma_sum_comm(p, q, Rule::AddSymTerm);
}

/// `topsoe(p, q) == topsoe(q, p)`
pub proof fn lemma_topsoe_symmetric(p: Seq<Val>, q: Seq<Val>)
    ensures
        distance::topsoe_spec(p, q) == distance::topsoe_spec(q, p),
{
    lemma_sum_comm(p, q, Rule::TopsoeTerm);
}

/// `jensen_shannon(p, q) == jensen_shannon(q, p)`: its two sums swap roles.
pub proof fn lemma_jensen_shannon_symmetric(p: Seq<Val>, q: Seq<Val>)
    ensures
        distance::jensen_shannon_spec(p, q) == distance::jensen_shannon_spec(q, p),
{
    let f = zip_terms(q, p, Rule::KDivTerm);
    let g = zip_terms(p, q, Rule::KDivTermRev);
    assert forall|i: int| 0 <= i < f.len() implies f[i] == g[i] by {
        lemma_v_add_comm(p[i], q[i]);
    }
    assert(f =~= g);
    let f2 = zip_terms(q, p, Rule::KDivTermRev);
    let g2 = zip_terms(p, q, Rule::KDivTerm);
    assert forall|i: int| 0 <= i < f2.len() implies f2[i] == g2[i] by {
        lemma_v_add_comm(p[i], q[i]);
    }
    assert(f2 =~= g2);
    lemma_v_add_comm(
        sum_pairs(p, q, Rule::KDivTerm),
        sum_pairs(p, q, Rule::KDivTermRev),
    );
}

/// `jensen_difference(p, q) == jensen_difference(q, p)`
pub proof fn lemma_jensen_difference_symmetric(p: Seq<Val>, q: Seq<Val>)
    ensures
        distance::jensen_difference_spec(p, q) == distance::jensen_difference_spec(q, p),
{
    lemma_sum_comm(p, q, Rule::JensenDiffTerm);
}

/// `taneja(p, q) == taneja(q, p)`
pub proof fn lemma_taneja_symmetric(p: Seq<Val>, q: Seq<Val>)
    ensures
        distance::taneja_spec(p, q) == distance::taneja_spec(q, p),
{
    lemma_sum_comm(p, q, Rule::TanejaTerm);
}

/// `kumar_johnson(p, q) == kumar_johnson(q, p)`
pub proof fn lemma_kumar_johnson_symmetric(p: Seq<Val>, q: Seq<Val>)
    ensures
        distance::kumar_johnson_spec(p, q) == distance::kumar_johnson_spec(q, p),
{
    lemma_sum_comm(p, q, Rule::KumarJohnsonTerm);
}

// ---------------------------------------------------------------------------
// Self-distance: metric(p, p) has value zero where the formula is defined at
// equal entries
// ---------------------------------------------------------------------------

proof fn lemma_self_term_zero(r: Rule, a: Val)
    requires
        a is Fin,
        v_wf(a),
        r == Rule::AbsDiff || r == Rule::SqDiff,
    ensures
        v_is_zero(crate::ops::apply_rule(r, a, a)),
{
    match a {
        Val::Fin(x) => {
            let s = rat_sub(x, x);
            assert(s.n == 0);
            assert(s.d > 0) by (nonlinear_arith)
                requires
                    s.d == x.d * x.d,
                    x.d > 0,
            ;
            assert(rat_mul(s, s).n == 0) by (nonlinear_arith)
                requires
                    rat_mul(s, s).n == s.n * s.n,
                    s.n == 0,
            ;
            assert(rat_mul(s, s).d > 0) by (nonlinear_arith)
                requires
                    rat_mul(s, s).d == s.d * s.d,
                    s.d > 0,
            ;
            assert((-x.n) * x.d == -(x.n * x.d)) by (nonlinear_arith);
            assert(rat_add(x, rat_neg(x)) == rat_sub(x, x));
        },
        _ => {},
    }
}

proof fn lemma_sum_zero(s: Seq<Val>)
    requires
        forall|i: int| 0 <= i < s.len() ==> v_is_zero(#[trigger] s[i]),
    ensures
        v_is_zero(v_sum(s)),
    decreases s.len(),
{
    if s.len() > 0 {
        lemma_sum_zero(s.drop_last());
        let x = match v_sum(s.drop_last()) {
            Val::Fin(x) => x,
            _ => rat(0, 1),
        };
        let y = match s.last() {
            Val::Fin(y) => y,
            _ => rat(0, 1),
        };
        assert(rat_add(x, y).n == 0 && rat_add(x, y).d > 0) by (nonlinear_arith)
            requires
                rat_add(x, y).n == x.n * y.d + y.n * x.d,
                rat_add(x, y).d == x.d * y.d,
                x.n == 0,
                y.n == 0,
                x.d > 0,
                y.d > 0,
        ;
    }
}

proof fn lemma_self_zip_zero(p: Seq<Val>, r: Rule)
    requires
        all_fin_wf(p),
        r == Rule::AbsDiff || r == Rule::SqDiff,
    ensures
        v_is_zero(sum_pairs(p, p, r)),
{
    let ts = zip_terms(p, p, r);
    assert forall|i: int| 0 <= i < ts.len() implies v_is_zero(#[trigger] ts[i]) by {
        lemma_self_term_zero(r, p[i]);
    }
    lemma_sum_zero(ts);
}

/// `manhattan(p, p)` is zero.
pub proof fn lemma_manhattan_self(p: Seq<Val>)
    requires
        all_fin_wf(p),
    ensures
        v_is_zero(distance::manhattan_spec(p, p)),
{
    lemma_self_zip_zero(p, Rule::AbsDiff);
}

/// `squared_euclidean(p, p)` is zero.
pub proof fn lemma_squared_euclidean_self(p: Seq<Val>)
    requires
        all_fin_wf(p),
    ensures
        v_is_zero(distance::squared_euclidean_spec(p, p)),
{
    lemma_self_zip_zero(p, Rule::SqDiff);
}

/// `euclidean(p, p)` is zero: the square root of an exact zero is zero.
pub proof fn lemma_euclidean_self(p: Seq<Val>)
    requires
        all_fin_wf(p),
    ensures
        v_is_zero(distance::euclidean_spec(p, p)),
{
    lemma_self_zip_zero(p, Rule::SqDiff);
    let s = sum_pairs(p, p, Rule::SqDiff);
    match s {
        Val::Fin(x) => {
            assert(x.n * x.d * crate::rational::pow2_int(256) == 0) by (nonlinear_arith)
                requires
                    x.n == 0,
            ;
            lemma_floor_sqrt_unique(x.n * x.d * crate::rational::pow2_int(256), 0);
            vstd::arithmetic::power2::lemma_pow2_pos(128);
            assert(rat_sqrt(x).d > 0) by (nonlinear_arith)
                requires
                    rat_sqrt(x).d == x.d * crate::rational::pow2_int(128),
                    x.d > 0,
                    crate::rational::pow2_int(128) > 0,
            ;
        },
        _ => {},
    }
}

/// `minkowski(p, p, d)` is zero for a positive fractional exponent: each
/// term is a zero raised to a positive power.
pub proof fn lemma_minkowski_self(p: Seq<Val>, d: Val)
    requires
        all_fin_wf(p),
        d matches Val::Fin(e) && e.d > 0 && e.n > 0,
    ensures
        v_is_zero(distance::minkowski_spec(p, p, d)),
{
    let ts = zip_terms(p, p, Rule::PowAbsDiff(d));
    assert forall|i: int| 0 <= i < ts.len() implies v_is_zero(#[trigger] ts[i]) by {
        lemma_self_term_zero(Rule::AbsDiff, p[i]);
        assert(crate::elementary::v_fin_zero(v_abs(v_sub(p[i], p[i]))));
    }
    lemma_sum_zero(ts);
    let s = sum_pairs(p, p, Rule::PowAbsDiff(d));
    let e = d->Fin_0;
    let recip = v_div(v_one(), d);
    assert(recip matches Val::Fin(rx) && rx.n > 0 && rx.d > 0) by (nonlinear_arith)
        requires
            recip == Val::Fin(rat_div(rat(1, 1), e)),
            rat_div(rat(1, 1), e).n == 1 * e.d,
            rat_div(rat(1, 1), e).d == 1 * e.n,
            e.n > 0,
            e.d > 0,
    ;
}

/// `intersection(p, p)` is zero.
pub proof fn lemma_intersection_self(p: Seq<Val>)
    requires
        all_fin_wf(p),
    ensures
        v_is_zero(distance::intersection_spec(p, p)),
{
    lemma_self_zip_zero(p, Rule::AbsDiff);
}

/// `gower(p, p)` is zero for a nonempty vector.
pub proof fn lemma_gower_self(p: Seq<Val>)
    requires
        all_fin_wf(p),
        p.len() > 0,
    ensures
        v_is_zero(distance::gower_spec(p, p)),
{
    lemma_self_zip_zero(p, Rule::AbsDiff);
    let s = sum_pairs(p, p, Rule::AbsDiff);
    match s {
        Val::Fin(x) => {
            assert(x.d * (p.len() as int) > 0) by (nonlinear_arith)
                requires
                    x.d > 0,
                    p.len() > 0,
            ;
        },
        _ => {},
    }
}

/// `lorentzian(p, p)` is zero: each term is the logarithm of an exact one.
pub proof fn lemma_lorentzian_self(p: Seq<Val>)
    requires
        all_fin_wf(p),
    ensures
        v_is_zero(distance::lorentzian_spec(p, p)),
{
    let ts = zip_terms(p, p, Rule::LorentzianTerm);
    assert forall|i: int| 0 <= i < ts.len() implies v_is_zero(#[trigger] ts[i]) by {
        let a = p[i];
        lemma_self_term_zero(Rule::AbsDiff, a);
        let z = v_abs(v_sub(a, a));
        match z {
            Val::Fin(zx) => {
                let s = rat_add(rat(1, 1), zx);
                assert(s == rat(zx.d, zx.d));
                lemma_ln_one(zx.d);
            },
            _ => {},
        }
    }
    lemma_sum_zero(ts);
}

/// `chebyshev(p, p)` is zero: every term is zero and so is the seed.
pub proof fn lemma_chebyshev_self(p: Seq<Val>)
    requires
        all_fin_wf(p),
    ensures
        v_is_zero(distance::chebyshev_spec(p, p)),
{
    let ts = zip_terms(p, p, Rule::AbsDiff);
    assert forall|i: int| 0 <= i < ts.len() implies v_is_zero(#[trigger] ts[i]) by {
        lemma_self_term_zero(Rule::AbsDiff, p[i]);
    }
    lemma_max_fold_zero(ts, Val::Fin(rat(0, 1)));
}

proof fn lemma_max_fold_zero(s: Seq<Val>, seed: Val)
    requires
        v_is_zero(seed),
        forall|i: int| 0 <= i < s.len() ==> v_is_zero(#[trigger] s[i]),
    ensures
        v_is_zero(v_max_fold(s, seed)),
    decreases s.len(),
{
    if s.len() > 0 {
        lemma_max_fold_zero(s.drop_last(), seed);
    }
}

// ---------------------------------------------------------------------------
// Self-similarity and complementarity
// ---------------------------------------------------------------------------

/// `kumar_hassebrook(p, p)` has value one whenever `sum of squares` is a
/// nonzero fraction: the quotient's numerator and denominator coincide.
#[verifier::rlimit(50)]
pub proof fn lemma_kumar_hassebrook_self(p: Seq<Val>)
    requires
        sum_squares(p) matches Val::Fin(s) && s.d > 0 && s.n != 0,
    ensures
        v_is_one(distance::kumar_hassebrook_spec(p, p)),
{
    let pq = sum_pairs(p, p, Rule::Prod);
    assert(zip_terms(p, p, Rule::Prod) =~= sq_terms(p));
    assert(pq == sum_squares(p));
    match pq {
        Val::Fin(s) => {
            let twice = rat_add(s, s);
            let den = rat_sub(twice, s);
            assert((-s.n) * twice.d == -(s.n * twice.d)) by (nonlinear_arith);
            assert(rat_add(twice, rat_neg(s)) == rat_sub(twice, s));
            assert(den.n == s.n * (s.d * s.d) && den.d == (s.d * s.d) * s.d && den.d > 0)
                by (nonlinear_arith)
                requires
                    den.n == (s.n * s.d + s.n * s.d) * s.d - s.n * (s.d * s.d),
                    den.d == (s.d * s.d) * s.d,
                    s.d > 0,
            ;
            let quot = rat_div(s, den);
            if den.n >= 0 {
                assert(quot.n == quot.d && quot.d > 0) by (nonlinear_arith)
                    requires
                        quot.n == s.n * den.d,
                        quot.d == s.d * den.n,
                        den.n == s.n * (s.d * s.d),
                        den.d == (s.d * s.d) * s.d,
                        s.d > 0,
                        s.n != 0,
                        den.n >= 0,
                ;
            } else {
                assert(quot.n == quot.d && quot.d > 0) by (nonlinear_arith)
                    requires
                        quot.n == -(s.n * den.d),
                        quot.d == s.d * -den.n,
                        den.n == s.n * (s.d * s.d),
                        den.d == (s.d * s.d) * s.d,
                        s.d > 0,
                        s.n != 0,
                        den.n < 0,
                ;
            }
        },
        _ => {},
    }
}


// ---------------------------------------------------------------------------
// Self-distance of the ratio, square-root and entropy families
// ---------------------------------------------------------------------------

pub open spec fn all_fin_nonzero(p: Seq<Val>) -> bool {
    forall|i: int| 0 <= i < p.len() ==> ((#[trigger] p[i]) matches Val::Fin(x) && x.d > 0 && x.n != 0)
}

pub open spec fn all_fin_positive(p: Seq<Val>) -> bool {
    forall|i: int| 0 <= i < p.len() ==> ((#[trigger] p[i]) matches Val::Fin(x) && x.d > 0 && x.n > 0)
}

pub open spec fn all_fin_nonneg(p: Seq<Val>) -> bool {
    forall|i: int| 0 <= i < p.len() ==> ((#[trigger] p[i]) matches Val::Fin(x) && x.d > 0 && x.n >= 0)
}

/// A zero fraction divided by a nonzero fraction is zero.
proof fn lemma_zero_div(z: Rat, s: Rat)
    requires
        z.n == 0,
        z.d > 0,
        s.d > 0,
        s.n != 0,
    ensures
        v_is_zero(v_div(Val::Fin(z), Val::Fin(s))),
{
    let q = rat_div(z, s);
    if s.n >= 0 {
        assert(q.n == 0 && q.d > 0) by (nonlinear_arith)
            requires
                q.n == z.n * s.d,
                q.d == z.d * s.n,
                z.n == 0,
                z.d > 0,
                s.n > 0,
        ;
    } else {
        assert(q.n == 0 && q.d > 0) by (nonlinear_arith)
            requires
                q.n == -(z.n * s.d),
                q.d == z.d * -s.n,
                z.n == 0,
                z.d > 0,
                s.n < 0,
        ;
    }
}

/// The logarithm approximation of a fraction with equal numerator and
/// denominator is an exact zero.
proof fn lemma_ln_one(n: int)
    requires
        n > 0,
    ensures
        ln_rat_approx(rat(n, n)) == rat(0, pow2_int(256)),
        v_is_zero(Val::Fin(ln_rat_approx(rat(n, n)))),
{
    let x = rat(n, n);
    assert(shrink(n, n) == (n, 0int));
    assert(ln_norm(x) == (rat(n, n), 0int));
    vstd::arithmetic::power2::lemma_pow2_pos(256);
    let k = pow2_int(256);
    assert(n * k <= n * k && n * k < n * (k + 1)) by (nonlinear_arith)
        requires
            n > 0,
            k > 0,
    ;
    crate::elementary::lemma_rat_floor_unique(Rat { n: n * k, d: n }, k);
    let m = round256(rat(n, n));
    assert(m == rat(k, k));
    let z = rat_div(rat_sub(m, rat(1, 1)), rat_add(m, rat(1, 1)));
    assert(rat_sub(m, rat(1, 1)) == rat(k * 1 - 1 * k, k * 1));
    assert(z.n == 0 && z.d > 0) by (nonlinear_arith)
        requires
            z.n == (k * 1 - 1 * k) * (k * 1),
            z.d == (k * 1) * (k * 1 + 1 * k),
            k > 0,
            k * 1 + 1 * k > 0,
    ;
    lemma_atanh_zero_arg(z, 24);
    let s = atanh_partial(z, 24);
    lemma_atanh_pos(rat(1, 3), 24);
    let l2 = crate::elementary::ln2_approx();
    let pre = rat_add(rat_mul(rat(2, 1), s), rat_mul(rat(0, 1), l2));
    assert(pre.n == 0 && pre.d > 0) by (nonlinear_arith)
        requires
            pre.n == (2 * s.n) * (1 * l2.d) + (0 * l2.n) * (s.d * 1),
            pre.d == (s.d * 1) * (1 * l2.d),
            s.n == 0,
            s.d > 0,
            l2.d > 0,
    ;
    assert(0 * k == 0) by (nonlinear_arith);
    crate::elementary::lemma_rat_floor_unique(Rat { n: pre.n * k, d: pre.d }, 0);
    assert(round256(pre) == rat(0, k));
}

/// Partial inverse-tanh sums of a zero argument stay zero.
proof fn lemma_atanh_zero_arg(z: Rat, k: nat)
    requires
        z.n == 0,
        z.d > 0,
    ensures
        zpow_at(z, k).n == 0,
        zpow_at(z, k).d > 0,
        atanh_partial(z, k).n == 0,
        atanh_partial(z, k).d > 0,
    decreases k,
{
    if k == 0 {
    } else {
        lemma_atanh_zero_arg(z, (k - 1) as nat);
        let zp = zpow_at(z, (k - 1) as nat);
        assert(zpow_at(z, k).n == 0 && zpow_at(z, k).d > 0) by (nonlinear_arith)
            requires
                zpow_at(z, k).n == zp.n * (z.n * z.n),
                zpow_at(z, k).d == zp.d * (z.d * z.d),
                zp.n == 0,
                zp.d > 0,
                z.d > 0,
        ;
        let prev = atanh_partial(z, (k - 1) as nat);
        let term = rat_mul(zp, rat(1, 2 * (k - 1) + 1));
        assert(atanh_partial(z, k).n == 0 && atanh_partial(z, k).d > 0) by (nonlinear_arith)
            requires
                atanh_partial(z, k).n == prev.n * term.d + term.n * prev.d,
                atanh_partial(z, k).d == prev.d * term.d,
                term.n == zp.n * 1,
                term.d == zp.d * (2 * (k - 1) + 1),
                prev.n == 0,
                prev.d > 0,
                zp.n == 0,
                zp.d > 0,
                k >= 1,
        ;
    }
}

/// The quotient of a nonzero fraction by itself has equal, positive
/// components.
proof fn lemma_div_self(x: Rat)
    requires
        x.d > 0,
        x.n != 0,
    ensures
        rat_div(x, x).n == rat_div(x, x).d,
        rat_div(x, x).d > 0,
{
    let q = rat_div(x, x);
    if x.n >= 0 {
        assert(q.n == q.d && q.d > 0) by (nonlinear_arith)
            requires
                q.n == x.n * x.d,
                q.d == x.d * x.n,
                x.d > 0,
                x.n > 0,
        ;
    } else {
        assert(q.n == q.d && q.d > 0) by (nonlinear_arith)
            requires
                q.n == -(x.n * x.d),
                q.d == x.d * -x.n,
                x.d > 0,
                x.n < 0,
        ;
    }
}

/// Element rules that divide the vanishing difference by something nonzero
/// produce a zero term at equal entries.
#[verifier::rlimit(80)]
proof fn lemma_self_ratio_term_zero(r: Rule, a: Val)
    requires
        a matches Val::Fin(x) && x.d > 0 && x.n != 0,
        r == Rule::CanberraTerm || r == Rule::WaveHedgesTerm || r == Rule::SquaredTerm
            || r == Rule::DivergenceTerm || r == Rule::ClarkTerm || r == Rule::AddSymTerm
            || r == Rule::PearsonTerm || r == Rule::NeymanTerm,
    ensures
        v_is_zero(crate::ops::apply_rule(r, a, a)),
{
    let x = a->Fin_0;
    let s = rat_sub(x, x);
    assert((-x.n) * x.d == -(x.n * x.d)) by (nonlinear_arith);
    assert(rat_add(x, rat_neg(x)) == rat_sub(x, x));
    assert(s.n == 0);
    assert(s.d > 0) by (nonlinear_arith)
        requires
            s.d == x.d * x.d,
            x.d > 0,
    ;
    let ax = rat_abs(x);
    assert(ax.d == x.d);
    assert(ax.n > 0);
    match r {
        Rule::CanberraTerm => {
            let den = rat_add(ax, ax);
            assert(den.n != 0 && den.d > 0) by (nonlinear_arith)
                requires
                    den.n == ax.n * ax.d + ax.n * ax.d,
                    den.d == ax.d * ax.d,
                    ax.n > 0,
                    ax.d > 0,
            ;
            lemma_zero_div(s, den);
        },
        Rule::WaveHedgesTerm => {
            lemma_zero_div(s, x);
        },
        Rule::SquaredTerm => {
            let den = rat_add(x, x);
            lemma_sum_self_nonzero(x);
            lemma_mul_zero_sq(s);
            lemma_zero_div(rat_mul(s, s), den);
        },
        Rule::DivergenceTerm => {
            let den = rat_add(x, x);
            lemma_sum_self_nonzero(x);
            let den2 = rat_mul(den, den);
            assert(den2.n != 0 && den2.d > 0) by (nonlinear_arith)
                requires
                    den2.n == den.n * den.n,
                    den2.d == den.d * den.d,
                    den.n != 0,
                    den.d > 0,
            ;
            lemma_mul_zero_sq(s);
            lemma_zero_div(rat_mul(s, s), den2);
        },
        Rule::ClarkTerm => {
            let den = rat_add(x, x);
            lemma_sum_self_nonzero(x);
            lemma_zero_div(s, den);
            let t = rat_div(s, den);
            lemma_mul_zero_sq(t);
        },
        Rule::AddSymTerm => {
            lemma_mul_zero_sq(s);
            let num = rat_mul(rat_mul(s, s), rat_add(x, x));
            lemma_sum_self_nonzero(x);
            assert(num.n == 0 && num.d > 0) by (nonlinear_arith)
                requires
                    num.n == (s.n * s.n) * rat_add(x, x).n,
                    num.d == (s.d * s.d) * rat_add(x, x).d,
                    s.n == 0,
                    s.d > 0,
                    rat_add(x, x).d > 0,
            ;
            let den = rat_mul(x, x);
            assert(den.n != 0 && den.d > 0) by (nonlinear_arith)
                requires
                    den.n == x.n * x.n,
                    den.d == x.d * x.d,
                    x.n != 0,
                    x.d > 0,
            ;
            lemma_zero_div(num, den);
        },
        Rule::PearsonTerm => {
            lemma_mul_zero_sq(s);
            lemma_zero_div(rat_mul(s, s), x);
        },
        Rule::NeymanTerm => {
            lemma_mul_zero_sq(s);
            lemma_zero_div(rat_mul(s, s), x);
        },
        _ => {},
    }
}

/// `x + x` of a nonzero fraction is nonzero.
proof fn lemma_sum_self_nonzero(x: Rat)
    requires
        x.d > 0,
        x.n != 0,
    ensures
        rat_add(x, x).n != 0,
        rat_add(x, x).d > 0,
{
    assert(rat_add(x, x).n != 0 && rat_add(x, x).d > 0) by (nonlinear_arith)
        requires
            rat_add(x, x).n == x.n * x.d + x.n * x.d,
            rat_add(x, x).d == x.d * x.d,
            x.n != 0,
            x.d > 0,
    ;
}

/// The square of a zero fraction is zero.
proof fn lemma_mul_zero_sq(s: Rat)
    requires
        s.n == 0,
        s.d > 0,
    ensures
        rat_mul(s, s).n == 0,
        rat_mul(s, s).d > 0,
{
    assert(rat_mul(s, s).n == 0 && rat_mul(s, s).d > 0) by (nonlinear_arith)
        requires
            rat_mul(s, s).n == s.n * s.n,
            rat_mul(s, s).d == s.d * s.d,
            s.n == 0,
            s.d > 0,
    ;
}

proof fn lemma_self_ratio_sum_zero(p: Seq<Val>, r: Rule)
    requires
        all_fin_nonzero(p),
        r == Rule::CanberraTerm || r == Rule::WaveHedgesTerm || r == Rule::SquaredTerm
            || r == Rule::DivergenceTerm || r == Rule::ClarkTerm || r == Rule::AddSymTerm
            || r == Rule::PearsonTerm || r == Rule::NeymanTerm,
    ensures
        v_is_zero(sum_pairs(p, p, r)),
{
    let ts = zip_terms(p, p, r);
    assert forall|i: int| 0 <= i < ts.len() implies v_is_zero(#[trigger] ts[i]) by {
        lemma_self_ratio_term_zero(r, p[i]);
    }
    lemma_sum_zero(ts);
}

/// `canberra(p, p)` is zero when every entry is a nonzero fraction.
pub proof fn lemma_canberra_self(p: Seq<Val>)
    requires
        all_fin_nonzero(p),
    ensures
        v_is_zero(distance::canberra_spec(p, p)),
{
    lemma_self_ratio_sum_zero(p, Rule::CanberraTerm);
}

/// `wave_hedges(p, p)` is zero when every entry is a nonzero fraction.
pub proof fn lemma_wave_hedges_self(p: Seq<Val>)
    requires
        all_fin_nonzero(p),
    ensures
        v_is_zero(distance::wave_hedges_spec(p, p)),
{
    lemma_self_ratio_sum_zero(p, Rule::WaveHedgesTerm);
}

/// `squared(p, p)` is zero when every entry is a nonzero fraction.
pub proof fn lemma_squared_self(p: Seq<Val>)
    requires
        all_fin_nonzero(p),
    ensures
        v_is_zero(distance::squared_spec(p, p)),
{
    lemma_self_ratio_sum_zero(p, Rule::SquaredTerm);
}

/// `probabilistic_symmetric(p, p)` is zero when every entry is a nonzero
/// fraction.
pub proof fn lemma_probabilistic_symmetric_self(p: Seq<Val>)
    requires
        all_fin_nonzero(p),
    ensures
        v_is_zero(distance::probabilistic_symmetric_spec(p, p)),
{
    lemma_squared_self(p);
    let s = distance::squared_spec(p, p);
    match s {
        Val::Fin(x) => {
            assert(rat_mul(rat(2, 1), x).n == 0 && rat_mul(rat(2, 1), x).d > 0)
                by (nonlinear_arith)
                requires
                    rat_mul(rat(2, 1), x).n == 2 * x.n,
                    rat_mul(rat(2, 1), x).d == 1 * x.d,
                    x.n == 0,
                    x.d > 0,
            ;
        },
        _ => {},
    }
}

/// `divergence(p, p)` is zero when every entry is a nonzero fraction.
pub proof fn lemma_divergence_self(p: Seq<Val>)
    requires
        all_fin_nonzero(p),
    ensures
        v_is_zero(distance::divergence_spec(p, p)),
{
    lemma_self_ratio_sum_zero(p, Rule::DivergenceTerm);
    let s = sum_pairs(p, p, Rule::DivergenceTerm);
    match s {
        Val::Fin(x) => {
            assert(rat_mul(rat(2, 1), x).n == 0 && rat_mul(rat(2, 1), x).d > 0)
                by (nonlinear_arith)
                requires
                    rat_mul(rat(2, 1), x).n == 2 * x.n,
                    rat_mul(rat(2, 1), x).d == 1 * x.d,
                    x.n == 0,
                    x.d > 0,
            ;
        },
        _ => {},
    }
}

/// `clark(p, p)` is zero when every entry is a nonzero fraction.
pub proof fn lemma_clark_self(p: Seq<Val>)
    requires
        all_fin_nonzero(p),
    ensures
        v_is_zero(distance::clark_spec(p, p)),
{
    lemma_self_ratio_sum_zero(p, Rule::ClarkTerm);
    let s = sum_pairs(p, p, Rule::ClarkTerm);
    match s {
        Val::Fin(x) => {
            assert(x.n * x.d * crate::rational::pow2_int(256) == 0) by (nonlinear_arith)
                requires
                    x.n == 0,
            ;
            lemma_floor_sqrt_unique(x.n * x.d * crate::rational::pow2_int(256), 0);
            vstd::arithmetic::power2::lemma_pow2_pos(128);
            assert(rat_sqrt(x).d > 0) by (nonlinear_arith)
                requires
                    rat_sqrt(x).d == x.d * crate::rational::pow2_int(128),
                    x.d > 0,
                    crate::rational::pow2_int(128) > 0,
            ;
        },
        _ => {},
    }
}

/// `additive_symmetric(p, p)` is zero when every entry is a nonzero
/// fraction.
pub proof fn lemma_additive_symmetric_self(p: Seq<Val>)
    requires
        all_fin_nonzero(p),
    ensures
        v_is_zero(distance::additive_symmetric_spec(p, p)),
{
    lemma_self_ratio_sum_zero(p, Rule::AddSymTerm);
}

/// `pearson(p, p)` is zero when every entry is a nonzero fraction.
pub proof fn lemma_pearson_self(p: Seq<Val>)
    requires
        all_fin_nonzero(p),
    ensures
        v_is_zero(distance::pearson_spec(p, p)),
{
    lemma_self_ratio_sum_zero(p, Rule::PearsonTerm);
}

/// `neyman(p, p)` is zero when every entry is a nonzero fraction.
pub proof fn lemma_neyman_self(p: Seq<Val>)
    requires
        all_fin_nonzero(p),
    ensures
        v_is_zero(distance::neyman_spec(p, p)),
{
    lemma_self_ratio_sum_zero(p, Rule::NeymanTerm);
}

/// The square-root difference term vanishes at equal nonnegative entries.
proof fn lemma_self_sqrt_term_zero(a: Val)
    requires
        a matches Val::Fin(x) && x.d > 0 && x.n >= 0,
    ensures
        v_is_zero(crate::ops::apply_rule(Rule::SqrtDiffSq, a, a)),
{
    let x = a->Fin_0;
    let sq = rat_sqrt(x);
    vstd::arithmetic::power2::lemma_pow2_pos(128);
    assert(sq.d > 0) by (nonlinear_arith)
        requires
            sq.d == x.d * crate::rational::pow2_int(128),
            x.d > 0,
            crate::rational::pow2_int(128) > 0,
    ;
    let s = rat_sub(sq, sq);
    assert((-sq.n) * sq.d == -(sq.n * sq.d)) by (nonlinear_arith);
    assert(rat_add(sq, rat_neg(sq)) == rat_sub(sq, sq));
    assert(s.n == 0);
    assert(s.d > 0) by (nonlinear_arith)
        requires
            s.d == sq.d * sq.d,
            sq.d > 0,
    ;
    lemma_mul_zero_sq(s);
}

proof fn lemma_self_sqrt_sum_zero(p: Seq<Val>)
    requires
        all_fin_nonneg(p),
    ensures
        v_is_zero(sum_pairs(p, p, Rule::SqrtDiffSq)),
{
    let ts = zip_terms(p, p, Rule::SqrtDiffSq);
    assert forall|i: int| 0 <= i < ts.len() implies v_is_zero(#[trigger] ts[i]) by {
        lemma_self_sqrt_term_zero(p[i]);
    }
    lemma_sum_zero(ts);
}

/// `squared_chord(p, p)` is zero for nonnegative entries.
pub proof fn lemma_squared_chord_self(p: Seq<Val>)
    requires
        all_fin_nonneg(p),
    ensures
        v_is_zero(distance::squared_chord_spec(p, p)),
{
    lemma_self_sqrt_sum_zero(p);
}

/// `matusita(p, p)` is zero for nonnegative entries.
pub proof fn lemma_matusita_self(p: Seq<Val>)
    requires
        all_fin_nonneg(p),
    ensures
        v_is_zero(distance::matusita_spec(p, p)),
{
    lemma_self_sqrt_sum_zero(p);
    let s = sum_pairs(p, p, Rule::SqrtDiffSq);
    match s {
        Val::Fin(x) => {
            lemma_sqrt_of_zero(x);
        },
        _ => {},
    }
}

/// `hellinger(p, p)` is zero for nonnegative entries.
pub proof fn lemma_hellinger_self(p: Seq<Val>)
    requires
        all_fin_nonneg(p),
    ensures
        v_is_zero(distance::hellinger_spec(p, p)),
{
    lemma_self_sqrt_sum_zero(p);
    let s = sum_pairs(p, p, Rule::SqrtDiffSq);
    match s {
        Val::Fin(x) => {
            let tw = rat_mul(rat(2, 1), x);
            assert(tw.n == 0 && tw.d > 0) by (nonlinear_arith)
                requires
                    tw.n == 2 * x.n,
                    tw.d == 1 * x.d,
                    x.n == 0,
                    x.d > 0,
            ;
            lemma_sqrt_of_zero(tw);
        },
        _ => {},
    }
}

/// The dyadic square root of a zero fraction is zero.
proof fn lemma_sqrt_of_zero(x: Rat)
    requires
        x.n == 0,
        x.d > 0,
    ensures
        v_is_zero(Val::Fin(rat_sqrt(x))),
{
    assert(x.n * x.d * crate::rational::pow2_int(256) == 0) by (nonlinear_arith)
        requires
            x.n == 0,
    ;
    lemma_floor_sqrt_unique(x.n * x.d * crate::rational::pow2_int(256), 0);
    vstd::arithmetic::power2::lemma_pow2_pos(128);
    assert(rat_sqrt(x).d > 0) by (nonlinear_arith)
        requires
            rat_sqrt(x).d == x.d * crate::rational::pow2_int(128),
            x.d > 0,
            crate::rational::pow2_int(128) > 0,
    ;
}

/// The entropy-family terms vanish at equal entries: the logarithm's
/// argument is an exact one.
proof fn lemma_self_ln_term_zero(r: Rule, a: Val)
    requires
        a matches Val::Fin(x) && x.d > 0 && x.n != 0,
        r == Rule::KullbackTerm || r == Rule::JeffreysTerm || r == Rule::KDivTerm
            || r == Rule::KDivTermRev || r == Rule::TopsoeTerm,
    ensures
        v_is_zero(crate::ops::apply_rule(r, a, a)),
{
    let x = a->Fin_0;
    lemma_div_self(x);
    let q = rat_div(x, x);
    lemma_ln_one(q.n);
    assert(q == rat(q.n, q.n));
    vstd::arithmetic::power2::lemma_pow2_pos(256);
    // the two-over-sum quotient also has equal positive components
    let num2 = rat_mul(rat(2, 1), x);
    let den2 = rat_add(x, x);
    lemma_sum_self_nonzero(x);
    let q2 = rat_div(num2, den2);
    if den2.n >= 0 {
        assert(q2.n == q2.d && q2.d > 0) by (nonlinear_arith)
            requires
                q2.n == (2 * x.n) * (x.d * x.d),
                q2.d == (1 * x.d) * (x.n * x.d + x.n * x.d),
                x.d > 0,
                x.n != 0,
                x.n * x.d + x.n * x.d >= 0,
        ;
    } else {
        assert(q2.n == q2.d && q2.d > 0) by (nonlinear_arith)
            requires
                q2.n == -((2 * x.n) * (x.d * x.d)),
                q2.d == (1 * x.d) * -(x.n * x.d + x.n * x.d),
                x.d > 0,
                x.n != 0,
                x.n * x.d + x.n * x.d < 0,
        ;
    }
    lemma_ln_one(q2.n);
    assert(q2 == rat(q2.n, q2.n));
    let lnz = ln_rat_approx(rat(q2.n, q2.n));
    let term = rat_mul(x, lnz);
    assert(term.n == 0 && term.d > 0) by (nonlinear_arith)
        requires
            term.n == x.n * lnz.n,
            term.d == x.d * lnz.d,
            lnz.n == 0,
            lnz.d > 0,
            x.d > 0,
    ;
    match r {
        Rule::KullbackTerm => {
            let lnq = ln_rat_approx(rat(q.n, q.n));
            let t = rat_mul(x, lnq);
            assert(t.n == 0 && t.d > 0) by (nonlinear_arith)
                requires
                    t.n == x.n * lnq.n,
                    t.d == x.d * lnq.d,
                    lnq.n == 0,
                    lnq.d > 0,
                    x.d > 0,
            ;
        },
        Rule::JeffreysTerm => {
            let s = rat_sub(x, x);
            assert((-x.n) * x.d == -(x.n * x.d)) by (nonlinear_arith);
            assert(rat_add(x, rat_neg(x)) == rat_sub(x, x));
            let lnq = ln_rat_approx(rat(q.n, q.n));
            let t = rat_mul(s, lnq);
            assert(t.n == 0 && t.d > 0) by (nonlinear_arith)
                requires
                    t.n == s.n * lnq.n,
                    t.d == s.d * lnq.d,
                    s.n == 0,
                    s.d == x.d * x.d,
                    lnq.d > 0,
                    x.d > 0,
            ;
        },
        Rule::KDivTerm => {},
        Rule::KDivTermRev => {},
        Rule::TopsoeTerm => {
            assert(rat_add(term, term).n == 0 && rat_add(term, term).d > 0) by (nonlinear_arith)
                requires
                    rat_add(term, term).n == term.n * term.d + term.n * term.d,
                    rat_add(term, term).d == term.d * term.d,
                    term.n == 0,
                    term.d > 0,
            ;
        },
        _ => {},
    }
}

proof fn lemma_self_ln_sum_zero(p: Seq<Val>, r: Rule)
    requires
        all_fin_nonzero(p),
        r == Rule::KullbackTerm || r == Rule::JeffreysTerm || r == Rule::KDivTerm
            || r == Rule::KDivTermRev || r == Rule::TopsoeTerm,
    ensures
        v_is_zero(sum_pairs(p, p, r)),
{
    let ts = zip_terms(p, p, r);
    assert forall|i: int| 0 <= i < ts.len() implies v_is_zero(#[trigger] ts[i]) by {
        lemma_self_ln_term_zero(r, p[i]);
    }
    lemma_sum_zero(ts);
}

/// `kullback_leibler(p, p)` is zero when every entry is a nonzero fraction.
pub proof fn lemma_kullback_leibler_self(p: Seq<Val>)
    requires
        all_fin_nonzero(p),
    ensures
        v_is_zero(distance::kullback_leibler_spec(p, p)),
{
    lemma_self_ln_sum_zero(p, Rule::KullbackTerm);
}

/// `jeffreys(p, p)` is zero when every entry is a nonzero fraction.
pub proof fn lemma_jeffreys_self(p: Seq<Val>)
    requires
        all_fin_nonzero(p),
    ensures
        v_is_zero(distance::jeffreys_spec(p, p)),
{
    lemma_self_ln_sum_zero(p, Rule::JeffreysTerm);
}

/// `k_divergence(p, p)` is zero when every entry is a nonzero fraction.
pub proof fn lemma_k_divergence_self(p: Seq<Val>)
    requires
        all_fin_nonzero(p),
    ensures
        v_is_zero(distance::k_divergence_spec(p, p)),
{
    lemma_self_ln_sum_zero(p, Rule::KDivTerm);
}

/// `topsoe(p, p)` is zero when every entry is a nonzero fraction.
pub proof fn lemma_topsoe_self(p: Seq<Val>)
    requires
        all_fin_nonzero(p),
    ensures
        v_is_zero(distance::topsoe_spec(p, p)),
{
    lemma_self_ln_sum_zero(p, Rule::TopsoeTerm);
}

/// `jensen_shannon(p, p)` is zero when every entry is a nonzero fraction.
pub proof fn lemma_jensen_shannon_self(p: Seq<Val>)
    requires
        all_fin_nonzero(p),
    ensures
        v_is_zero(distance::jensen_shannon_spec(p, p)),
{
    lemma_self_ln_sum_zero(p, Rule::KDivTerm);
    lemma_self_ln_sum_zero(p, Rule::KDivTermRev);
    let s1 = sum_pairs(p, p, Rule::KDivTerm);
    let s2 = sum_pairs(p, p, Rule::KDivTermRev);
    match (s1, s2) {
        (Val::Fin(x), Val::Fin(y)) => {
            let su = rat_add(x, y);
            assert(su.n == 0 && su.d > 0) by (nonlinear_arith)
                requires
                    su.n == x.n * y.d + y.n * x.d,
                    su.d == x.d * y.d,
                    x.n == 0,
                    y.n == 0,
                    x.d > 0,
                    y.d > 0,
            ;
            lemma_zero_div(su, rat(2, 1));
        },
        _ => {},
    }
}

/// One taneja term vanishes at equal positive entries: the square root of
/// `x * x` is exactly `x` scaled onto the dyadic grid, so the logarithm's
/// argument is an exact one.
#[verifier::rlimit(60)]
proof fn lemma_self_taneja_term_zero(a: Val)
    requires
        a matches Val::Fin(x) && x.d > 0 && x.n > 0,
    ensures
        v_is_zero(crate::ops::apply_rule(Rule::TanejaTerm, a, a)),
{
    let x = a->Fin_0;
    let sq = rat_mul(x, x);
    assert(sq.n >= 0 && sq.d > 0) by (nonlinear_arith)
        requires
            sq.n == x.n * x.n,
            sq.d == x.d * x.d,
            x.n > 0,
            x.d > 0,
    ;
    let k = pow2_int(128);
    vstd::arithmetic::power2::lemma_pow2_pos(128);
    vstd::arithmetic::power2::lemma_pow2_pos(256);
    assert(pow2_int(256) == k * k) by {
        vstd::arithmetic::power2::lemma_pow2_adds(128, 128);
    }
    let w = x.n * x.d * k;
    assert(w >= 0 && w * w == sq.n * sq.d * (k * k) && w * w < (w + 1) * (w + 1))
        by (nonlinear_arith)
        requires
            sq.n == x.n * x.n,
            sq.d == x.d * x.d,
            x.n > 0,
            x.d > 0,
            k > 0,
            w == x.n * x.d * k,
    ;
    lemma_floor_sqrt_unique(sq.n * sq.d * pow2_int(256), w);
    let root = rat_sqrt(sq);
    assert(root == (Rat { n: w, d: sq.d * k }));
    let two_root = rat_mul(rat(2, 1), root);
    let su = rat_add(x, x);
    lemma_sum_self_nonzero(x);
    assert(two_root.n > 0) by (nonlinear_arith)
        requires
            two_root.n == 2 * w,
            w == x.n * x.d * k,
            x.n > 0,
            x.d > 0,
            k > 0,
    ;
    let q = rat_div(su, two_root);
    assert(q.n == q.d && q.n > 0) by (nonlinear_arith)
        requires
            q.n == (x.n * x.d + x.n * x.d) * (1 * (x.d * x.d * k)),
            q.d == (x.d * x.d) * (2 * (x.n * x.d * k)),
            x.n > 0,
            x.d > 0,
            k > 0,
    ;
    lemma_ln_one(q.n);
    assert(q == rat(q.n, q.n));
    let lnz = ln_rat_approx(rat(q.n, q.n));
    let mid = rat_div(su, rat(2, 1));
    assert(mid.d > 0) by (nonlinear_arith)
        requires
            mid.d == (x.d * x.d) * 2,
            x.d > 0,
    ;
    let term = rat_mul(mid, lnz);
    assert(term.n == 0 && term.d > 0) by (nonlinear_arith)
        requires
            term.n == mid.n * lnz.n,
            term.d == mid.d * lnz.d,
            lnz.n == 0,
            lnz.d > 0,
            mid.d > 0,
    ;
}

/// `taneja(p, p)` is zero when every entry is a positive fraction.
pub proof fn lemma_taneja_self(p: Seq<Val>)
    requires
        all_fin_positive(p),
    ensures
        v_is_zero(distance::taneja_spec(p, p)),
{
    let ts = zip_terms(p, p, Rule::TanejaTerm);
    assert forall|i: int| 0 <= i < ts.len() implies v_is_zero(#[trigger] ts[i]) by {
        lemma_self_taneja_term_zero(p[i]);
    }
    lemma_sum_zero(ts);
}

/// `sorensen(p, p)` is zero whenever its denominator, the sum of all paired
/// entries, is a nonzero fraction.
pub proof fn lemma_sorensen_self(p: Seq<Val>)
    requires
        all_fin_wf(p),
        sum_pairs(p, p, Rule::SumPq) matches Val::Fin(s) && s.d > 0 && s.n != 0,
    ensures
        v_is_zero(distance::sorensen_spec(p, p)),
{
    lemma_self_zip_zero(p, Rule::AbsDiff);
    let z = sum_pairs(p, p, Rule::AbsDiff);
    let s = sum_pairs(p, p, Rule::SumPq);
    match (z, s) {
        (Val::Fin(zx), Val::Fin(sx)) => {
            lemma_zero_div(zx, sx);
        },
        _ => {},
    }
}

/// `soergel(p, p)` is zero whenever the sum of the entries is a nonzero
/// fraction: at equal entries the paired maximum is the entry itself.
pub proof fn lemma_soergel_self(p: Seq<Val>)
    requires
        all_fin_wf(p),
        v_sum(p) matches Val::Fin(s) && s.d > 0 && s.n != 0,
    ensures
        v_is_zero(distance::soergel_spec(p, p)),
{
    lemma_self_zip_zero(p, Rule::AbsDiff);
    lemma_self_minmax_is_entry(p, Rule::MaxPq);
    let z = sum_pairs(p, p, Rule::AbsDiff);
    let s = sum_pairs(p, p, Rule::MaxPq);
    match (z, s) {
        (Val::Fin(zx), Val::Fin(sx)) => {
            lemma_zero_div(zx, sx);
        },
        _ => {},
    }
}

/// `kulczynski(p, p)` is zero whenever the sum of the entries is a nonzero
/// fraction: at equal entries the paired minimum is the entry itself.
pub proof fn lemma_kulczynski_self(p: Seq<Val>)
    requires
        all_fin_wf(p),
        v_sum(p) matches Val::Fin(s) && s.d > 0 && s.n != 0,
    ensures
        v_is_zero(distance::kulczynski_spec(p, p)),
{
    lemma_self_zip_zero(p, Rule::AbsDiff);
    lemma_self_minmax_is_entry(p, Rule::MinPq);
    let z = sum_pairs(p, p, Rule::AbsDiff);
    let s = sum_pairs(p, p, Rule::MinPq);
    match (z, s) {
        (Val::Fin(zx), Val::Fin(sx)) => {
            lemma_zero_div(zx, sx);
        },
        _ => {},
    }
}

/// At equal entries, the paired minimum and maximum are the entries
/// themselves, so those sums are the plain sum of the vector.
proof fn lemma_self_minmax_is_entry(p: Seq<Val>, r: Rule)
    requires
        all_fin_wf(p),
        r == Rule::MinPq || r == Rule::MaxPq,
    ensures
        sum_pairs(p, p, r) == v_sum(p),
{
    let ts = zip_terms(p, p, r);
    assert forall|i: int| 0 <= i < ts.len() implies ts[i] == p[i] by {
        match p[i] {
            Val::Fin(x) => {
                assert(!crate::rational::rat_lt(x, x));
            },
            _ => {},
        }
    }
    assert(ts =~= p);
}

/// `avg(p, p)` is zero for a nonempty vector: the sum of the vanishing
/// differences is zero and so is their maximum.
pub proof fn lemma_avg_self(p: Seq<Val>)
    requires
        all_fin_wf(p),
        p.len() > 0,
    ensures
        v_is_zero(distance::avg_spec(p, p)),
{
    lemma_self_zip_zero(p, Rule::AbsDiff);
    let ts = zip_terms(p, p, Rule::AbsDiff);
    assert forall|i: int| 0 <= i < ts.len() implies v_is_zero(#[trigger] ts[i]) by {
        lemma_self_term_zero(Rule::AbsDiff, p[i]);
    }
    lemma_max_fold_zero_from_bottom(ts);
    let s = sum_pairs(p, p, Rule::AbsDiff);
    let m = max_pairs(p, p, Rule::AbsDiff, Val::NInf);
    match (s, m) {
        (Val::Fin(x), Val::Fin(y)) => {
            let su = rat_add(x, y);
            assert(su.n == 0 && su.d > 0) by (nonlinear_arith)
                requires
                    su.n == x.n * y.d + y.n * x.d,
                    su.d == x.d * y.d,
                    x.n == 0,
                    y.n == 0,
                    x.d > 0,
                    y.d > 0,
            ;
            lemma_zero_div(su, rat(2, 1));
        },
        _ => {},
    }
}

/// A maximum folded from the negative infinity over zero terms is zero once
/// one term exists.
proof fn lemma_max_fold_zero_from_bottom(s: Seq<Val>)
    requires
        s.len() > 0,
        forall|i: int| 0 <= i < s.len() ==> v_is_zero(#[trigger] s[i]),
    ensures
        v_is_zero(v_max_fold(s, Val::NInf)),
    decreases s.len(),
{
    if s.len() == 1 {
        assert(v_max_fold(s.drop_last(), Val::NInf) == Val::NInf);
    } else {
        lemma_max_fold_zero_from_bottom(s.drop_last());
    }
}


// ---------------------------------------------------------------------------
// Symmetry of the minimum- and maximum-based metrics, up to value equality:
// a paired minimum or maximum picks one of two value-equal components, so
// these results are equal as values though not always componentwise.
// ---------------------------------------------------------------------------

/// Well-formedness of every entry.
pub open spec fn all_wf(p: Seq<Val>) -> bool {
    forall|i: int| 0 <= i < p.len() ==> v_wf(#[trigger] p[i])
}

/// The order respects value equality.
proof fn lemma_lt_congr(a: Val, a2: Val, b: Val, b2: Val)
    requires
        v_wf(a),
        v_wf(a2),
        v_wf(b),
        v_wf(b2),
        v_eq(a, a2),
        v_eq(b, b2),
    ensures
        v_lt(a, b) == v_lt(a2, b2),
{
    match (a, b) {
        (Val::Fin(x), Val::Fin(y)) => {
            let x2 = a2->Fin_0;
            let y2 = b2->Fin_0;
            assert(rat_lt(x, y) == rat_lt(x2, y2)) by (nonlinear_arith)
                requires
                    x.n * x2.d == x2.n * x.d,
                    y.n * y2.d == y2.n * y.d,
                    x.d > 0,
                    x2.d > 0,
                    y.d > 0,
                    y2.d > 0,
            ;
        },
        _ => {},
    }
}

/// Exchanging the arguments of a paired maximum or minimum keeps the value.
proof fn lemma_minmax_swap(a: Val, b: Val)
    requires
        v_wf(a),
        v_wf(b),
    ensures
        v_eq(v_max(a, b), v_max(b, a)),
        v_eq(v_min(a, b), v_min(b, a)),
        v_wf(v_max(a, b)),
        v_wf(v_min(a, b)),
{
    match (a, b) {
        (Val::Fin(x), Val::Fin(y)) => {
            if !rat_lt(x, y) && !rat_lt(y, x) {
                assert(rat_eq(x, y));
                assert(rat_eq(y, x));
            }
            assert(rat_eq(x, x));
            assert(rat_eq(y, y));
        },
        _ => {},
    }
}

/// Addition respects value equality.
#[verifier::rlimit(100)]
proof fn lemma_add_congr(a: Val, a2: Val, b: Val, b2: Val)
    requires
        v_wf(a),
        v_wf(a2),
        v_wf(b),
        v_wf(b2),
        v_eq(a, a2),
        v_eq(b, b2),
    ensures
        v_eq(v_add(a, b), v_add(a2, b2)),
        v_wf(v_add(a, b)),
        v_wf(v_add(a2, b2)),
{
    match (a, b) {
        (Val::Fin(x), Val::Fin(y)) => {
            let x2 = a2->Fin_0;
            let y2 = b2->Fin_0;
            crate::rational::lemma_pos_mul(x.d, y.d);
            crate::rational::lemma_pos_mul(x2.d, y2.d);
            let a1 = x.n * y.d;
            let b1 = y.n * x.d;
            let c1 = x2.d * y2.d;
            let a2r = x2.n * y2.d;
            let b2r = y2.n * x2.d;
            let c2r = x.d * y.d;
            vstd::arithmetic::mul::lemma_mul_is_distributive_add_other_way(c1, a1, b1);
            vstd::arithmetic::mul::lemma_mul_is_distributive_add_other_way(c2r, a2r, b2r);
            assert((x.n * y.d) * (x2.d * y2.d) == (x.n * x2.d) * (y.d * y2.d)) by (nonlinear_arith);
            assert((y.n * x.d) * (x2.d * y2.d) == (y.n * y2.d) * (x.d * x2.d)) by (nonlinear_arith);
            assert((x2.n * y2.d) * (x.d * y.d) == (x2.n * x.d) * (y2.d * y.d)) by (nonlinear_arith);
            assert((y2.n * x2.d) * (x.d * y.d) == (y2.n * y.d) * (x2.d * x.d)) by (nonlinear_arith);
            assert((x.n * x2.d) * (y.d * y2.d) == (x2.n * x.d) * (y2.d * y.d)) by (nonlinear_arith)
                requires
                    x.n * x2.d == x2.n * x.d,
            ;
            assert((y.n * y2.d) * (x.d * x2.d) == (y2.n * y.d) * (x2.d * x.d)) by (nonlinear_arith)
                requires
                    y.n * y2.d == y2.n * y.d,
            ;
            assert(rat_eq(rat_add(x, y), rat_add(x2, y2)));
        },
        _ => {},
    }
}

/// Multiplication respects value equality.
#[verifier::rlimit(100)]
proof fn lemma_mul_congr(a: Val, a2: Val, b: Val, b2: Val)
    requires
        v_wf(a),
        v_wf(a2),
        v_wf(b),
        v_wf(b2),
        v_eq(a, a2),
        v_eq(b, b2),
    ensures
        v_eq(v_mul(a, b), v_mul(a2, b2)),
        v_wf(v_mul(a, b)),
        v_wf(v_mul(a2, b2)),
{
    match (a, b) {
        (Val::Fin(x), Val::Fin(y)) => {
            let x2 = a2->Fin_0;
            let y2 = b2->Fin_0;
            assert(rat_eq(rat_mul(x, y), rat_mul(x2, y2)) && rat_mul(x, y).d > 0 && rat_mul(
                x2,
                y2,
            ).d > 0) by (nonlinear_arith)
                requires
                    rat_mul(x, y) == (Rat { n: x.n * y.n, d: x.d * y.d }),
                    rat_mul(x2, y2) == (Rat { n: x2.n * y2.n, d: x2.d * y2.d }),
                    x.n * x2.d == x2.n * x.d,
                    y.n * y2.d == y2.n * y.d,
                    x.d > 0,
                    x2.d > 0,
                    y.d > 0,
                    y2.d > 0,
            ;
        },
        _ => {
            assert(v_sign(a) == v_sign(a2) && v_sign(b) == v_sign(b2)) by (nonlinear_arith)
                requires
                    v_eq(a, a2),
                    v_eq(b, b2),
                    v_wf(a),
                    v_wf(a2),
                    v_wf(b),
                    v_wf(b2),
                    v_sign(a) == match a {
                        Val::PInf => 1int,
                        Val::NInf => -1int,
                        Val::Fin(x) => if x.n > 0 { 1int } else if x.n < 0 { -1int } else { 0int },
                        Val::Nan => 0int,
                    },
                    v_sign(a2) == match a2 {
                        Val::PInf => 1int,
                        Val::NInf => -1int,
                        Val::Fin(x) => if x.n > 0 { 1int } else if x.n < 0 { -1int } else { 0int },
                        Val::Nan => 0int,
                    },
                    v_sign(b) == match b {
                        Val::PInf => 1int,
                        Val::NInf => -1int,
                        Val::Fin(x) => if x.n > 0 { 1int } else if x.n < 0 { -1int } else { 0int },
                        Val::Nan => 0int,
                    },
                    v_sign(b2) == match b2 {
                        Val::PInf => 1int,
                        Val::NInf => -1int,
                        Val::Fin(x) => if x.n > 0 { 1int } else if x.n < 0 { -1int } else { 0int },
                        Val::Nan => 0int,
                    },
            ;
        },
    }
}

/// Negation respects value equality.
proof fn lemma_neg_congr(a: Val, a2: Val)
    requires
        v_wf(a),
        v_wf(a2),
        v_eq(a, a2),
    ensures
        v_eq(v_neg(a), v_neg(a2)),
        v_wf(v_neg(a)),
        v_wf(v_neg(a2)),
{
    match a {
        Val::Fin(x) => {
            let x2 = a2->Fin_0;
            assert((-x.n) * x2.d == -(x.n * x2.d)) by (nonlinear_arith);
            assert((-x2.n) * x.d == -(x2.n * x.d)) by (nonlinear_arith);
        },
        _ => {},
    }
}

/// Division respects value equality.
#[verifier::rlimit(60)]
proof fn lemma_div_congr(a: Val, a2: Val, b: Val, b2: Val)
    requires
        v_wf(a),
        v_wf(a2),
        v_wf(b),
        v_wf(b2),
        v_eq(a, a2),
        v_eq(b, b2),
    ensures
        v_eq(v_div(a, b), v_div(a2, b2)),
        v_wf(v_div(a, b)),
        v_wf(v_div(a2, b2)),
{
    match (a, b) {
        (Val::PInf, Val::Fin(y)) => {
            let y2 = b2->Fin_0;
            assert((y.n < 0) == (y2.n < 0)) by (nonlinear_arith)
                requires
                    y.n * y2.d == y2.n * y.d,
                    y.d > 0,
                    y2.d > 0,
            ;
        },
        (Val::NInf, Val::Fin(y)) => {
            let y2 = b2->Fin_0;
            assert((y.n < 0) == (y2.n < 0)) by (nonlinear_arith)
                requires
                    y.n * y2.d == y2.n * y.d,
                    y.d > 0,
                    y2.d > 0,
            ;
        },
        (Val::Fin(x), Val::Fin(y)) => {
            let x2 = a2->Fin_0;
            let y2 = b2->Fin_0;
            assert((y.n == 0) == (y2.n == 0) && (y.n > 0) == (y2.n > 0) && (x.n > 0) == (x2.n
                > 0) && (x.n == 0) == (x2.n == 0)) by (nonlinear_arith)
                requires
                    x.n * x2.d == x2.n * x.d,
                    y.n * y2.d == y2.n * y.d,
                    x.d > 0,
                    x2.d > 0,
                    y.d > 0,
                    y2.d > 0,
            ;
            if y.n != 0 {
                assert((x.n * y.d) * (x2.d * y2.n) == (x2.n * y2.d) * (x.d * y.n))
                    by (nonlinear_arith)
                    requires
                        x.n * x2.d == x2.n * x.d,
                        y.n * y2.d == y2.n * y.d,
                ;
                if y.n > 0 {
                    crate::rational::lemma_pos_mul(x.d, y.n);
                    crate::rational::lemma_pos_mul(x2.d, y2.n);
                    assert(rat_eq(rat_div(x, y), rat_div(x2, y2)));
                } else {
                    crate::rational::lemma_pos_mul(x.d, -y.n);
                    crate::rational::lemma_pos_mul(x2.d, -y2.n);
                    assert((-(x.n * y.d)) * (x2.d * -y2.n) == (-(x2.n * y2.d)) * (x.d * -y.n))
                        by (nonlinear_arith)
                        requires
                            (x.n * y.d) * (x2.d * y2.n) == (x2.n * y2.d) * (x.d * y.n),
                    ;
                    assert(rat_eq(rat_div(x, y), rat_div(x2, y2)));
                }
            }
        },
        _ => {},
    }
}

/// Left-to-right sums of pointwise value-equal, well-formed terms are
/// value-equal.
proof fn lemma_sum_congr(s: Seq<Val>, s2: Seq<Val>)
    requires
        s.len() == s2.len(),
        all_wf(s),
        all_wf(s2),
        forall|i: int| 0 <= i < s.len() ==> v_eq(#[trigger] s[i], s2[i]),
    ensures
        v_eq(v_sum(s), v_sum(s2)),
        v_wf(v_sum(s)),
        v_wf(v_sum(s2)),
    decreases s.len(),
{
    if s.len() == 0 {
    } else {
        assert(all_wf(s.drop_last()));
        assert(all_wf(s2.drop_last()));
        assert(forall|i: int|
            0 <= i < s.drop_last().len() ==> v_eq(#[trigger] s.drop_last()[i], s2.drop_last()[i]));
        lemma_sum_congr(s.drop_last(), s2.drop_last());
        lemma_add_congr(v_sum(s.drop_last()), v_sum(s2.drop_last()), s.last(), s2.last());
    }
}

/// The sums of the paired minima (and maxima) of `p, q` and of `q, p` are
/// value-equal.
proof fn lemma_minmax_sum_swap(p: Seq<Val>, q: Seq<Val>, r: Rule)
    requires
        all_wf(p),
        all_wf(q),
        r == Rule::MinPq || r == Rule::MaxPq,
    ensures
        v_eq(sum_pairs(p, q, r), sum_pairs(q, p, r)),
        v_wf(sum_pairs(p, q, r)),
        v_wf(sum_pairs(q, p, r)),
{
    let s1 = zip_terms(p, q, r);
    let s2 = zip_terms(q, p, r);
    assert forall|i: int| 0 <= i < s1.len() implies v_eq(#[trigger] s1[i], s2[i]) && v_wf(s1[i])
        && v_wf(s2[i]) by {
        lemma_minmax_swap(p[i], q[i]);
        lemma_minmax_swap(q[i], p[i]);
    }
    lemma_sum_congr(s1, s2);
}

/// `soergel(p, q)` and `soergel(q, p)` are value-equal.
pub proof fn lemma_soergel_symmetric(p: Seq<Val>, q: Seq<Val>)
    requires
        all_wf(p),
        all_wf(q),
    ensures
        v_eq(distance::soergel_spec(p, q), distance::soergel_spec(q, p)),
{
    lemma_sum_comm(p, q, Rule::AbsDiff);
    lemma_minmax_sum_swap(p, q, Rule::MaxPq);
    lemma_abs_sum_wf(p, q);
    lemma_div_congr(
        sum_pairs(p, q, Rule::AbsDiff),
        sum_pairs(q, p, Rule::AbsDiff),
        sum_pairs(p, q, Rule::MaxPq),
        sum_pairs(q, p, Rule::MaxPq),
    );
}

/// `motyka(p, q)` and `motyka(q, p)` are value-equal.
pub proof fn lemma_motyka_symmetric(p: Seq<Val>, q: Seq<Val>)
    requires
        all_wf(p),
        all_wf(q),
    ensures
        v_eq(distance::motyka_spec(p, q), distance::motyka_spec(q, p)),
{
    lemma_sum_comm(p, q, Rule::SumPq);
    lemma_minmax_sum_swap(p, q, Rule::MaxPq);
    lemma_sumpq_sum_wf(p, q);
    lemma_div_congr(
        sum_pairs(p, q, Rule::MaxPq),
        sum_pairs(q, p, Rule::MaxPq),
        sum_pairs(p, q, Rule::SumPq),
        sum_pairs(q, p, Rule::SumPq),
    );
}

/// `ruzicka(p, q)` and `ruzicka(q, p)` are value-equal.
pub proof fn lemma_ruzicka_symmetric(p: Seq<Val>, q: Seq<Val>)
    requires
        all_wf(p),
        all_wf(q),
    ensures
        v_eq(distance::ruzicka_spec(p, q), distance::ruzicka_spec(q, p)),
{
    lemma_minmax_sum_swap(p, q, Rule::MinPq);
    lemma_minmax_sum_swap(p, q, Rule::MaxPq);
    lemma_div_congr(
        sum_pairs(p, q, Rule::MinPq),
        sum_pairs(q, p, Rule::MinPq),
        sum_pairs(p, q, Rule::MaxPq),
        sum_pairs(q, p, Rule::MaxPq),
    );
}

/// `czekanowski(p, q)` and `czekanowski(q, p)` are value-equal.
pub proof fn lemma_czekanowski_symmetric(p: Seq<Val>, q: Seq<Val>)
    requires
        all_wf(p),
        all_wf(q),
    ensures
        v_eq(distance::czekanowski_spec(p, q), distance::czekanowski_spec(q, p)),
{
    lemma_sum_comm(p, q, Rule::SumPq);
    lemma_minmax_sum_swap(p, q, Rule::MinPq);
    lemma_sumpq_sum_wf(p, q);
    assert(v_eq(v_two(), v_two()));
    lemma_mul_congr(
        v_two(),
        v_two(),
        sum_pairs(p, q, Rule::MinPq),
        sum_pairs(q, p, Rule::MinPq),
    );
    lemma_div_congr(
        v_mul(v_two(), sum_pairs(p, q, Rule::MinPq)),
        v_mul(v_two(), sum_pairs(q, p, Rule::MinPq)),
        sum_pairs(p, q, Rule::SumPq),
        sum_pairs(q, p, Rule::SumPq),
    );
    let t1 = v_div(v_mul(v_two(), sum_pairs(p, q, Rule::MinPq)), sum_pairs(p, q, Rule::SumPq));
    let t2 = v_div(v_mul(v_two(), sum_pairs(q, p, Rule::MinPq)), sum_pairs(q, p, Rule::SumPq));
    lemma_neg_congr(t1, t2);
    lemma_add_congr(v_one(), v_one(), v_neg(t1), v_neg(t2));
}

/// `wave_hedges(p, q)` and `wave_hedges(q, p)` are value-equal.
/// One wave-hedges term commutes up to value equality.
proof fn lemma_wave_term_swap(a: Val, b: Val)
    requires
        v_wf(a),
        v_wf(b),
    ensures
        v_eq(
            crate::ops::apply_rule(Rule::WaveHedgesTerm, a, b),
            crate::ops::apply_rule(Rule::WaveHedgesTerm, b, a),
        ),
        v_wf(crate::ops::apply_rule(Rule::WaveHedgesTerm, a, b)),
        v_wf(crate::ops::apply_rule(Rule::WaveHedgesTerm, b, a)),
{
    lemma_abs_sub_comm(a, b);
    lemma_abs_sub_wf(a, b);
    lemma_minmax_swap(a, b);
    lemma_minmax_swap(b, a);
    lemma_veq_refl(v_abs(v_sub(a, b)));
    lemma_div_congr(v_abs(v_sub(a, b)), v_abs(v_sub(b, a)), v_max(a, b), v_max(b, a));
}

pub proof fn lemma_wave_hedges_symmetric(p: Seq<Val>, q: Seq<Val>)
    requires
        all_wf(p),
        all_wf(q),
    ensures
        v_eq(distance::wave_hedges_spec(p, q), distance::wave_hedges_spec(q, p)),
{
    let s1 = zip_terms(p, q, Rule::WaveHedgesTerm);
    let s2 = zip_terms(q, p, Rule::WaveHedgesTerm);
    assert forall|i: int| 0 <= i < s1.len() implies v_eq(#[trigger] s1[i], s2[i]) by {
        lemma_wave_term_swap(p[i], q[i]);
    }
    assert forall|i: int| 0 <= i < s1.len() implies v_wf(#[trigger] s1[i]) by {
        lemma_wave_term_swap(p[i], q[i]);
    }
    assert forall|i: int| 0 <= i < s2.len() implies v_wf(#[trigger] s2[i]) by {
        lemma_wave_term_swap(p[i], q[i]);
    }
    lemma_sum_congr(s1, s2);
}

/// `chebyshev(p, q) == chebyshev(q, p)`: its terms commute componentwise.
pub proof fn lemma_chebyshev_symmetric(p: Seq<Val>, q: Seq<Val>)
    ensures
        distance::chebyshev_spec(p, q) == distance::chebyshev_spec(q, p),
{
    lemma_zip_comm(p, q, Rule::AbsDiff);
}

/// `avg(p, q) == avg(q, p)`: both of its folds run over commuting terms.
pub proof fn lemma_avg_symmetric(p: Seq<Val>, q: Seq<Val>)
    ensures
        distance::avg_spec(p, q) == distance::avg_spec(q, p),
{
    lemma_zip_comm(p, q, Rule::AbsDiff);
}

/// Value equality is reflexive.
proof fn lemma_veq_refl(a: Val)
    ensures
        v_eq(a, a),
{
}

/// The absolute difference of well-formed values is well formed.
proof fn lemma_abs_sub_wf(a: Val, b: Val)
    requires
        v_wf(a),
        v_wf(b),
    ensures
        v_wf(v_abs(v_sub(a, b))),
        v_wf(v_abs(v_sub(b, a))),
{
    match (a, b) {
        (Val::Fin(x), Val::Fin(y)) => {
            assert(x.d * y.d > 0 && y.d * x.d > 0) by (nonlinear_arith)
                requires
                    x.d > 0,
                    y.d > 0,
            ;
        },
        _ => {},
    }
}

/// The sum of absolute differences is well formed.
proof fn lemma_abs_sum_wf(p: Seq<Val>, q: Seq<Val>)
    requires
        all_wf(p),
        all_wf(q),
    ensures
        v_wf(sum_pairs(p, q, Rule::AbsDiff)),
        v_wf(sum_pairs(q, p, Rule::AbsDiff)),
{
    let s1 = zip_terms(p, q, Rule::AbsDiff);
    let s2 = zip_terms(q, p, Rule::AbsDiff);
    assert forall|i: int| 0 <= i < s1.len() implies v_eq(#[trigger] s1[i], s2[i]) by {
        lemma_abs_sub_comm(p[i], q[i]);
        lemma_veq_refl(s1[i]);
    }
    assert forall|i: int| 0 <= i < s1.len() implies v_wf(#[trigger] s1[i]) by {
        lemma_abs_sub_wf(p[i], q[i]);
    }
    assert forall|i: int| 0 <= i < s2.len() implies v_wf(#[trigger] s2[i]) by {
        lemma_abs_sub_wf(q[i], p[i]);
    }
    lemma_sum_congr(s1, s2);
}

/// The sum of paired sums is well formed.
/// A paired sum of well-formed values is well formed.
proof fn lemma_add_wf(a: Val, b: Val)
    requires
        v_wf(a),
        v_wf(b),
    ensures
        v_wf(v_add(a, b)),
{
    match (a, b) {
        (Val::Fin(x), Val::Fin(y)) => {
            crate::rational::lemma_pos_mul(x.d, y.d);
        },
        _ => {},
    }
}

proof fn lemma_sumpq_sum_wf(p: Seq<Val>, q: Seq<Val>)
    requires
        all_wf(p),
        all_wf(q),
    ensures
        v_wf(sum_pairs(p, q, Rule::SumPq)),
        v_wf(sum_pairs(q, p, Rule::SumPq)),
{
    let s1 = zip_terms(p, q, Rule::SumPq);
    let s2 = zip_terms(q, p, Rule::SumPq);
    assert forall|i: int| 0 <= i < s1.len() implies v_eq(#[trigger] s1[i], s2[i]) by {
        lemma_v_add_comm(p[i], q[i]);
        lemma_veq_refl(s1[i]);
    }
    assert forall|i: int| 0 <= i < s1.len() implies v_wf(#[trigger] s1[i]) by {
        lemma_add_wf(p[i], q[i]);
    }
    assert forall|i: int| 0 <= i < s2.len() implies v_wf(#[trigger] s2[i]) by {
        lemma_add_wf(q[i], p[i]);
    }
    lemma_sum_congr(s1, s2);
}

/// `dice(p, p)` (the distance form) is zero whenever the sum of squares is
/// a nonzero fraction.
pub proof fn lemma_dice_self(p: Seq<Val>)
    requires
        all_fin_wf(p),
        sum_squares(p) matches Val::Fin(s) && s.d > 0 && s.n != 0,
    ensures
        v_is_zero(distance::dice_spec(p, p)),
{
    lemma_self_zip_zero(p, Rule::SqDiff);
    let z = sum_pairs(p, p, Rule::SqDiff);
    let s = sum_squares(p);
    match (z, s) {
        (Val::Fin(zx), Val::Fin(sx)) => {
            lemma_sum_self_nonzero(sx);
            lemma_zero_div(zx, rat_add(sx, sx));
        },
        _ => {},
    }
}

/// `jaccard(p, p)` is zero whenever the sum of squares is a nonzero
/// fraction: one minus an exact one.
pub proof fn lemma_jaccard_self(p: Seq<Val>)
    requires
        sum_squares(p) matches Val::Fin(s) && s.d > 0 && s.n != 0,
    ensures
        v_is_zero(distance::jaccard_spec(p, p)),
{
    lemma_kumar_hassebrook_self(p);
    let kh = distance::kumar_hassebrook_spec(p, p);
    match kh {
        Val::Fin(k) => {
            let d = rat_add(rat(1, 1), rat_neg(k));
            assert(d.n == 0 && d.d > 0) by (nonlinear_arith)
                requires
                    d.n == 1 * k.d + (-k.n) * 1,
                    d.d == 1 * k.d,
                    k.n == k.d,
                    k.d > 0,
            ;
        },
        _ => {},
    }
}

/// Value equality is transitive on well-formed values.
proof fn lemma_veq_trans(a: Val, b: Val, c: Val)
    requires
        v_wf(a),
        v_wf(b),
        v_wf(c),
        v_eq(a, b),
        v_eq(b, c),
    ensures
        v_eq(a, c),
{
    match (a, b, c) {
        (Val::Fin(x), Val::Fin(y), Val::Fin(z)) => {
            assert(x.n * z.d == z.n * x.d) by (nonlinear_arith)
                requires
                    x.n * y.d == y.n * x.d,
                    y.n * z.d == z.n * y.d,
                    x.d > 0,
                    y.d > 0,
                    z.d > 0,
            ;
        },
        _ => {},
    }
}

/// A value added to itself equals twice the value.
proof fn lemma_double_veq(a: Val)
    requires
        v_wf(a),
    ensures
        v_eq(v_add(a, a), v_mul(v_two(), a)),
        v_wf(v_add(a, a)),
        v_wf(v_mul(v_two(), a)),
{
    match a {
        Val::Fin(x) => {
            assert((x.n * x.d + x.n * x.d) * (1 * x.d) == (2 * x.n) * (x.d * x.d))
                by (nonlinear_arith);
            assert(x.d * x.d > 0 && 1 * x.d > 0) by (nonlinear_arith)
                requires
                    x.d > 0,
            ;
        },
        _ => {},
    }
}

/// Doubling distributes over addition, as values.
#[verifier::rlimit(60)]
proof fn lemma_two_distrib(a: Val, b: Val)
    requires
        v_wf(a),
        v_wf(b),
    ensures
        v_eq(v_mul(v_two(), v_add(a, b)), v_add(v_mul(v_two(), a), v_mul(v_two(), b))),
        v_wf(v_mul(v_two(), v_add(a, b))),
        v_wf(v_add(v_mul(v_two(), a), v_mul(v_two(), b))),
{
    match (a, b) {
        (Val::Fin(x), Val::Fin(y)) => {
            let l = rat_mul(rat(2, 1), rat_add(x, y));
            let r = rat_add(rat_mul(rat(2, 1), x), rat_mul(rat(2, 1), y));
            assert(l.n * r.d == r.n * l.d && l.d > 0 && r.d > 0) by (nonlinear_arith)
                requires
                    l.n == 2 * (x.n * y.d + y.n * x.d),
                    l.d == 1 * (x.d * y.d),
                    r.n == (2 * x.n) * (1 * y.d) + (2 * y.n) * (1 * x.d),
                    r.d == (1 * x.d) * (1 * y.d),
                    x.d > 0,
                    y.d > 0,
            ;
        },
        _ => {},
    }
}

/// The sum of each entry paired with itself is twice the plain sum.
proof fn lemma_sum_double(p: Seq<Val>)
    requires
        all_wf(p),
    ensures
        v_eq(sum_pairs(p, p, Rule::SumPq), v_mul(v_two(), v_sum(p))),
        v_wf(sum_pairs(p, p, Rule::SumPq)),
        v_wf(v_sum(p)),
    decreases p.len(),
{
    let ts = zip_terms(p, p, Rule::SumPq);
    if p.len() == 0 {
        assert(ts.len() == 0);
    } else {
        let pd = p.drop_last();
        assert(all_wf(pd));
        lemma_sum_double(pd);
        assert(zip_terms(pd, pd, Rule::SumPq) =~= ts.drop_last());
        let sd = v_sum(pd);
        let x = p.last();
        lemma_add_wf(x, x);
        lemma_double_veq(x);
        lemma_double_veq(sd);
        lemma_add_wf(sd, x);
        // v_sum(ts) = prior + (x + x) ~ 2*prior' + 2*x ~ 2*(prior' + x)
        lemma_add_congr(v_sum(ts.drop_last()), v_mul(v_two(), sd), v_add(x, x), v_mul(v_two(), x));
        lemma_two_distrib(sd, x);
        lemma_veq_refl(v_mul(v_two(), v_add(sd, x)));
        lemma_veq_trans(
            v_sum(ts),
            v_add(v_mul(v_two(), sd), v_mul(v_two(), x)),
            v_mul(v_two(), v_add(sd, x)),
        );
    }
}

/// A quotient of one nonzero value by a value-equal one is one.
proof fn lemma_div_value_one(m: Val, d: Val)
    requires
        v_wf(m),
        v_wf(d),
        v_eq(m, d),
        m matches Val::Fin(x) && x.n != 0,
    ensures
        v_div(m, d) matches Val::Fin(q) && q.n == q.d && q.d > 0,
{
    let x = m->Fin_0;
    let y = d->Fin_0;
    assert(y.n != 0) by (nonlinear_arith)
        requires
            x.n * y.d == y.n * x.d,
            x.n != 0,
            x.d > 0,
            y.d > 0,
    ;
    let q = rat_div(x, y);
    if y.n >= 0 {
        assert(q.n == q.d && q.d > 0) by (nonlinear_arith)
            requires
                q.n == x.n * y.d,
                q.d == x.d * y.n,
                x.n * y.d == y.n * x.d,
                x.d > 0,
                y.d > 0,
                y.n > 0,
        ;
    } else {
        assert(q.n == q.d && q.d > 0) by (nonlinear_arith)
            requires
                q.n == -(x.n * y.d),
                q.d == x.d * -y.n,
                x.n * y.d == y.n * x.d,
                x.d > 0,
                y.d > 0,
                y.n < 0,
        ;
    }
}

/// `czekanowski(p, p)` is zero whenever the sum of the entries is a nonzero
/// fraction: the quotient of twice the paired minima by the paired sums is
/// an exact one.
pub proof fn lemma_czekanowski_self(p: Seq<Val>)
    requires
        all_fin_wf(p),
        v_sum(p) matches Val::Fin(s) && s.d > 0 && s.n != 0,
    ensures
        v_is_zero(distance::czekanowski_spec(p, p)),
{
    assert(all_wf(p));
    lemma_self_minmax_is_entry(p, Rule::MinPq);
    lemma_sum_double(p);
    let s = v_sum(p);
    let m = v_mul(v_two(), s);
    let s2 = sum_pairs(p, p, Rule::SumPq);
    let sx = s->Fin_0;
    assert(m matches Val::Fin(mx) && mx.n != 0 && mx.d > 0) by (nonlinear_arith)
        requires
            m == Val::Fin(rat_mul(rat(2, 1), sx)),
            rat_mul(rat(2, 1), sx).n == 2 * sx.n,
            rat_mul(rat(2, 1), sx).d == 1 * sx.d,
            sx.n != 0,
            sx.d > 0,
    ;
    lemma_veq_refl(m);
    // s2 is value-equal to m, so the quotient m / s2 is an exact one
    lemma_div_congr(m, m, s2, m);
    lemma_div_value_one(m, m);
    let t = v_div(m, s2);
    let t2 = v_div(m, m);
    lemma_veq_trans(t, t2, t2);
    match (t, t2) {
        (Val::Fin(tx), Val::Fin(t2x)) => {
            assert(tx.n == tx.d) by (nonlinear_arith)
                requires
                    tx.n * t2x.d == t2x.n * tx.d,
                    t2x.n == t2x.d,
                    t2x.d > 0,
            ;
            let d0 = rat_add(rat(1, 1), rat_neg(tx));
            assert(d0.n == 0 && d0.d > 0) by (nonlinear_arith)
                requires
                    d0.n == 1 * tx.d + (-tx.n) * 1,
                    d0.d == 1 * tx.d,
                    tx.n == tx.d,
                    tx.d > 0,
            ;
        },
        _ => {},
    }
}

/// Complementarity: the jaccard distance is one minus the kumar-hassebrook
/// similarity, by construction, for every pair of vectors.
pub proof fn lemma_jaccard_complement(p: Seq<Val>, q: Seq<Val>)
    ensures
        distance::jaccard_spec(p, q) == v_sub(v_one(), distance::kumar_hassebrook_spec(p, q)),
{
}

} // verus!
