use distance::value::Number;
use num_bigint::BigInt;
use num_traits::{Signed, ToPrimitive, Zero};

const P: [f64; 3] = [0.000, 1.700, 2.350];
const Q: [f64; 3] = [0.300, 1.700, 1.001];

const P2: [f64; 3] = [1.0, 2.0, 3.0];
const Q2: [f64; 3] = [2.0, 0.0, 1.0];

fn num(x: f64) -> Number {
    if x.is_nan() {
        return Number::nan();
    }
    if x.is_infinite() {
        return if x > 0.0 { Number::pos_inf() } else { Number::neg_inf() };
    }
    let bits = x.to_bits();
    let neg = (bits >> 63) == 1;
    let e = ((bits >> 52) & 0x7ff) as i64;
    let frac = bits & ((1u64 << 52) - 1);
    let (mant, exp) = if e == 0 { (frac, -1074i64) } else { (frac | (1u64 << 52), e - 1075) };
    Number::from_dyadic(neg, mant, exp as i32)
}

fn vecn(xs: &[f64]) -> Vec<Number> {
    xs.iter().map(|&x| num(x)).collect()
}

fn ratio_to_f64(n: &BigInt, d: &BigInt) -> f64 {
    if n.is_zero() {
        return 0.0;
    }
    let neg = n.is_negative();
    let na = n.abs();
    let shift = na.bits() as i64 - d.bits() as i64 - 64;
    let (n2, d2) = if shift >= 0 { (na, d << (shift as usize)) } else { (&na << ((-shift) as usize), d.clone()) };
    let q = &n2 / &d2;
    let v = q.to_f64().unwrap_or(f64::INFINITY) * 2f64.powi(shift as i32);
    if neg { -v } else { v }
}

fn to_f64(n: &Number) -> f64 {
    if n.is_nan() {
        return f64::NAN;
    }
    if n.is_pos_inf() {
        return f64::INFINITY;
    }
    if n.is_neg_inf() {
        return f64::NEG_INFINITY;
    }
    let (nu, de) = n.parts().unwrap();
    ratio_to_f64(&nu, &de)
}

fn assert_close(a: f64, b: f64) {
    assert!((a - b).abs() <= 1e-9, "{} vs {}", a, b);
}

// Symmetry on concrete vectors, covering in particular the minimum- and
// maximum-based metrics whose symmetry is not proved in the library.

#[test]
fn symmetry_chebyshev() {
    let a = distance::chebyshev(&vecn(&P), &vecn(&Q));
    let b = distance::chebyshev(&vecn(&Q), &vecn(&P));
    assert_close(to_f64(&a), to_f64(&b));
}

#[test]
fn symmetry_soergel() {
    let a = distance::soergel(&vecn(&P), &vecn(&Q));
    let b = distance::soergel(&vecn(&Q), &vecn(&P));
    assert_close(to_f64(&a), to_f64(&b));
}

#[test]
fn symmetry_wave_hedges() {
    let a = distance::wave_hedges(&vecn(&P2), &vecn(&Q2));
    let b = distance::wave_hedges(&vecn(&Q2), &vecn(&P2));
    assert_close(to_f64(&a), to_f64(&b));
}

#[test]
fn symmetry_czekanowski() {
    let a = distance::czekanowski(&vecn(&P), &vecn(&Q));
    let b = distance::czekanowski(&vecn(&Q), &vecn(&P));
    assert_close(to_f64(&a), to_f64(&b));
}

#[test]
fn symmetry_motyka() {
    let a = distance::motyka(&vecn(&P), &vecn(&Q));
    let b = distance::motyka(&vecn(&Q), &vecn(&P));
    assert_close(to_f64(&a), to_f64(&b));
}

#[test]
fn symmetry_ruzicka() {
    let a = distance::ruzicka(&vecn(&P), &vecn(&Q));
    let b = distance::ruzicka(&vecn(&Q), &vecn(&P));
    assert_close(to_f64(&a), to_f64(&b));
}

#[test]
fn symmetry_avg() {
    let a = distance::avg(&vecn(&P), &vecn(&Q));
    let b = distance::avg(&vecn(&Q), &vecn(&P));
    assert_close(to_f64(&a), to_f64(&b));
}

#[test]
fn symmetry_gower_equal_lengths() {
    let a = distance::gower(&vecn(&P), &vecn(&Q));
    let b = distance::gower(&vecn(&Q), &vecn(&P));
    assert_close(to_f64(&a), to_f64(&b));
}

#[test]
fn symmetry_euclidean() {
    let a = distance::euclidean(&vecn(&P), &vecn(&Q));
    let b = distance::euclidean(&vecn(&Q), &vecn(&P));
    assert_close(to_f64(&a), to_f64(&b));
}

#[test]
fn symmetry_jensen_shannon() {
    let a = distance::jensen_shannon(&vecn(&P2), &vecn(&Q2));
    let b = distance::jensen_shannon(&vecn(&Q2), &vecn(&P2));
    // both are the marker here (a zero entry makes `0 * ln 0`), or both equal
    let (af, bf) = (to_f64(&a), to_f64(&b));
    assert!(af.is_nan() == bf.is_nan());
    if !af.is_nan() {
        assert_close(af, bf);
    }
}

#[test]
fn symmetry_jeffreys() {
    let a = distance::jeffreys(&vecn(&P2), &vecn(&[2.0, 1.0, 1.0]));
    let b = distance::jeffreys(&vecn(&[2.0, 1.0, 1.0]), &vecn(&P2));
    assert_close(to_f64(&a), to_f64(&b));
}

// `neyman(p, q) == pearson(q, p)`: the deliberate asymmetry of the pair.

#[test]
fn neyman_is_pearson_swapped() {
    let a = distance::neyman(&vecn(&Q), &vecn(&P));
    let b = distance::pearson(&vecn(&P), &vecn(&Q));
    assert_close(to_f64(&a), to_f64(&b));
}

// Self-distance: metric(p, p) is zero where defined.

#[test]
fn self_distance_euclidean() {
    let r = distance::euclidean(&vecn(&P), &vecn(&P));
    assert_close(to_f64(&r), 0.0);
}

#[test]
fn self_distance_manhattan() {
    let r = distance::manhattan(&vecn(&P), &vecn(&P));
    assert_close(to_f64(&r), 0.0);
}

#[test]
fn self_distance_chebyshev() {
    let r = distance::chebyshev(&vecn(&P), &vecn(&P));
    assert_close(to_f64(&r), 0.0);
}

#[test]
fn self_distance_squared_euclidean() {
    let r = distance::squared_euclidean(&vecn(&P), &vecn(&P));
    assert_close(to_f64(&r), 0.0);
}

#[test]
fn self_distance_intersection() {
    let r = distance::intersection(&vecn(&P), &vecn(&P));
    assert_close(to_f64(&r), 0.0);
}

#[test]
fn self_distance_gower() {
    let r = distance::gower(&vecn(&P), &vecn(&P));
    assert_close(to_f64(&r), 0.0);
}

#[test]
fn self_distance_lorentzian() {
    let r = distance::lorentzian(&vecn(&P), &vecn(&P));
    assert_close(to_f64(&r), 0.0);
}

#[test]
fn self_distance_sorensen_positive_entries() {
    let r = distance::sorensen(&vecn(&P2), &vecn(&P2));
    assert_close(to_f64(&r), 0.0);
}

// Self-similarity.

#[test]
fn self_similarity_cosine() {
    let r = distance::cosine(&vecn(&P), &vecn(&P));
    assert_close(to_f64(&r), 1.0);
}

#[test]
fn self_similarity_kumar_hassebrook() {
    let r = distance::kumar_hassebrook(&vecn(&P), &vecn(&P));
    assert_close(to_f64(&r), 1.0);
}

// Complementarity: `jaccard == 1 - kumar_hassebrook`.

#[test]
fn jaccard_complements_kumar_hassebrook() {
    let j = distance::jaccard(&vecn(&P), &vecn(&Q));
    let k = distance::kumar_hassebrook(&vecn(&P), &vecn(&Q));
    assert_close(to_f64(&j), 1.0 - to_f64(&k));
}

#[test]
fn jaccard_complements_kumar_hassebrook_integers() {
    let j = distance::jaccard(&vecn(&P2), &vecn(&Q2));
    let k = distance::kumar_hassebrook(&vecn(&P2), &vecn(&Q2));
    assert_close(to_f64(&j), 1.0 - to_f64(&k));
}

// Scale consistency: `minkowski(p, q, 2) == euclidean(p, q)`.

#[test]
fn minkowski_two_matches_euclidean() {
    let m = distance::minkowski(&vecn(&P), &vecn(&Q), &num(2.0));
    let e = distance::euclidean(&vecn(&P), &vecn(&Q));
    assert_close(to_f64(&m), to_f64(&e));
}

// Integer-input equivalence: the remaining reference value.

#[test]
fn cosine_u32() {
    let r = distance::cosine(&vecn(&P2), &vecn(&Q2));
    assert_close(to_f64(&r), 0.5976143047);
}

// The unimplemented operation fails; it never returns a numeric value.

#[test]
fn tanimoto_is_unimplemented() {
    assert!(distance::tanimoto(&vecn(&P), &vecn(&Q)).is_none());
    assert!(distance::distance::tanimoto(&vecn(&P), &vecn(&Q)).is_none());
}

// Degenerate arithmetic propagates as infinities or the marker, unguarded.

#[test]
fn pearson_zero_denominator_is_infinite() {
    let r = distance::pearson(&vecn(&[1.0]), &vecn(&[0.0]));
    assert!(r.is_pos_inf());
}

#[test]
fn sorensen_zero_vectors_is_nan() {
    let r = distance::sorensen(&vecn(&[0.0, 0.0]), &vecn(&[0.0, 0.0]));
    assert!(r.is_nan());
}

#[test]
fn bhattacharyya_zero_vectors_is_infinite() {
    let r = distance::bhattacharyya(&vecn(&[0.0]), &vecn(&[0.0]));
    assert!(r.is_pos_inf());
}

#[test]
fn kullback_leibler_zero_in_q_is_infinite() {
    let r = distance::kullback_leibler(&vecn(&[1.0]), &vecn(&[0.0]));
    assert!(r.is_pos_inf());
}

#[test]
fn jensen_shannon_zero_entry_is_nan() {
    let r = distance::jensen_shannon(&vecn(&P), &vecn(&Q));
    assert!(r.is_nan());
}

#[test]
fn empty_vectors_sum_to_zero() {
    let r = distance::manhattan(&vecn(&[]), &vecn(&[]));
    assert_close(to_f64(&r), 0.0);
}

#[test]
fn mismatched_lengths_truncate() {
    let a = distance::manhattan(&vecn(&[1.0, 2.0, 7.0]), &vecn(&[2.0, 0.0]));
    let b = distance::manhattan(&vecn(&[1.0, 2.0]), &vecn(&[2.0, 0.0]));
    assert_close(to_f64(&a), to_f64(&b));
}

// Further reference values for the entropy family, against the formulas
// evaluated with ordinary floating point.

#[test]
fn kullback_leibler_reference() {
    let r = distance::kullback_leibler(&vecn(&P2), &vecn(&[2.0, 1.0, 1.0]));
    let expected = 1.0 * (1.0f64 / 2.0).ln() + 2.0 * (2.0f64 / 1.0).ln() + 3.0 * (3.0f64 / 1.0).ln();
    assert_close(to_f64(&r), expected);
}

#[test]
fn topsoe_reference() {
    let r = distance::topsoe(&vecn(&P2), &vecn(&[2.0, 1.0, 1.0]));
    let mut expected = 0.0f64;
    let qs = [2.0f64, 1.0, 1.0];
    for i in 0..3 {
        let (pi, qi) = (P2[i], qs[i]);
        expected += pi * ((2.0 * pi) / (pi + qi)).ln() + qi * ((2.0 * qi) / (pi + qi)).ln();
    }
    assert_close(to_f64(&r), expected);
}

#[test]
fn taneja_reference() {
    let r = distance::taneja(&vecn(&P2), &vecn(&[2.0, 1.0, 1.0]));
    let mut expected = 0.0f64;
    let qs = [2.0f64, 1.0, 1.0];
    for i in 0..3 {
        let (pi, qi) = (P2[i], qs[i]);
        expected += ((pi + qi) / 2.0) * ((pi + qi) / (2.0 * (pi * qi).sqrt())).ln();
    }
    assert_close(to_f64(&r), expected);
}

#[test]
fn kumar_johnson_reference() {
    let r = distance::kumar_johnson(&vecn(&P2), &vecn(&[2.0, 1.0, 1.0]));
    let mut expected = 0.0f64;
    let qs = [2.0f64, 1.0, 1.0];
    for i in 0..3 {
        let (pi, qi) = (P2[i], qs[i]);
        expected += (pi * pi - qi * qi).powi(2) / (2.0 * (pi * qi).powf(1.5));
    }
    assert_close(to_f64(&r), expected);
}

#[test]
fn minkowski_three_reference() {
    let r = distance::minkowski(&vecn(&P2), &vecn(&Q2), &num(3.0));
    let expected = (1.0f64 + 8.0 + 8.0).powf(1.0 / 3.0);
    assert_close(to_f64(&r), expected);
}

#[test]
fn jeffreys_reference() {
    let r = distance::jeffreys(&vecn(&P2), &vecn(&[2.0, 1.0, 1.0]));
    let mut expected = 0.0f64;
    let qs = [2.0f64, 1.0, 1.0];
    for i in 0..3 {
        let (pi, qi) = (P2[i], qs[i]);
        expected += (pi - qi) * (pi / qi).ln();
    }
    assert_close(to_f64(&r), expected);
}

#[test]
fn jensen_difference_reference() {
    let r = distance::jensen_difference(&vecn(&P2), &vecn(&[2.0, 1.0, 1.0]));
    let mut expected = 0.0f64;
    let qs = [2.0f64, 1.0, 1.0];
    for i in 0..3 {
        let (pi, qi) = (P2[i], qs[i]);
        expected += (pi * pi.ln() + qi * qi.ln()) / 2.0 - ((pi + qi) / 2.0) * ((pi + qi) / 2.0).ln();
    }
    assert_close(to_f64(&r), expected);
}

#[test]
fn k_divergence_reference() {
    let r = distance::k_divergence(&vecn(&P2), &vecn(&[2.0, 1.0, 1.0]));
    let mut expected = 0.0f64;
    let qs = [2.0f64, 1.0, 1.0];
    for i in 0..3 {
        let (pi, qi) = (P2[i], qs[i]);
        expected += pi * ((2.0 * pi) / (pi + qi)).ln();
    }
    assert_close(to_f64(&r), expected);
}

#[test]
fn additive_symmetric_reference() {
    let r = distance::additive_symmetric(&vecn(&P2), &vecn(&[2.0, 1.0, 1.0]));
    let mut expected = 0.0f64;
    let qs = [2.0f64, 1.0, 1.0];
    for i in 0..3 {
        let (pi, qi) = (P2[i], qs[i]);
        expected += ((pi - qi).powi(2) * (pi + qi)) / (pi * qi);
    }
    assert_close(to_f64(&r), expected);
}

#[test]
fn clark_reference() {
    let r = distance::clark(&vecn(&P2), &vecn(&Q2));
    let mut expected = 0.0f64;
    for i in 0..3 {
        let (pi, qi) = (P2[i], Q2[i]);
        expected += ((pi - qi).abs() / (pi + qi)).powi(2);
    }
    let expected = expected.sqrt();
    assert_close(to_f64(&r), expected);
}

#[test]
fn avg_reference() {
    let r = distance::avg(&vecn(&P), &vecn(&Q));
    let expected = (1.649 + 1.349) / 2.0;
    assert_close(to_f64(&r), expected);
}

#[test]
fn dice_similarity_reference() {
    let r = distance::similarity::dice(&vecn(&P), &vecn(&Q));
    let mut pq = 0.0f64;
    let mut pp = 0.0f64;
    let mut qq = 0.0f64;
    for i in 0..3 {
        pq += P[i] * Q[i];
        pp += P[i] * P[i];
        qq += Q[i] * Q[i];
    }
    assert_close(to_f64(&r), 2.0 * pq / (pp + qq));
}
