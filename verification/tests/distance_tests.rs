use distance::value::Number;
use num_bigint::BigInt;
use num_traits::{Signed, ToPrimitive, Zero};

const P: [f64; 3] = [0.000, 1.700, 2.350];
const Q: [f64; 3] = [0.300, 1.700, 1.001];

fn num(x: f64) -> Number {
    if x.is_nan() {
        return Number::nan();
    }
    if x.is_infinite() {
        return if x > 0.0 { Number::pos_inf() } else { Number::neg_inf() };
    }
    let bits = x.to_bits();
    let neg = (bits >> 63) == 1;
    let e = ((bits >> 52) & 0x7ff) as i64;
    let frac = bits & ((1u64 << 52) - 1);
    let (mant, exp) = if e == 0 { (frac, -1074i64) } else { (frac | (1u64 << 52), e - 1075) };
    Number::from_dyadic(neg, mant, exp as i32)
}

fn vecn(xs: &[f64]) -> Vec<Number> {
    xs.iter().map(|&x| num(x)).collect()
}

fn ratio_to_f64(n: &BigInt, d: &BigInt) -> f64 {
    if n.is_zero() {
        return 0.0;
    }
    let neg = n.is_negative();
    let na = n.abs();
    let shift = na.bits() as i64 - d.bits() as i64 - 64;
    let (n2, d2) = if shift >= 0 { (na, d << (shift as usize)) } else { (&na << ((-shift) as usize), d.clone()) };
    let q = &n2 / &d2;
    let v = q.to_f64().unwrap_or(f64::INFINITY) * 2f64.powi(shift as i32);
    if neg { -v } else { v }
}

fn to_f64(n: &Number) -> f64 {
    if n.is_nan() {
        return f64::NAN;
    }
    if n.is_pos_inf() {
        return f64::INFINITY;
    }
    if n.is_neg_inf() {
        return f64::NEG_INFINITY;
    }
    let (nu, de) = n.parts().unwrap();
    ratio_to_f64(&nu, &de)
}

fn assert_close(a: f64, b: f64) {
    assert!((a - b).abs() <= 1e-9, "{} vs {}", a, b);
}

#[test]
fn euclidean() {
    let result = distance::distance::euclidean(&vecn(&P), &vecn(&Q));
    assert_close(to_f64(&result), 1.381955499);
}

#[test]
fn manhattan() {
    let result = distance::distance::manhattan(&vecn(&P), &vecn(&Q));
    assert_close(to_f64(&result), 1.649000000);
}

#[test]
fn minkowski() {
    let result = distance::distance::minkowski(&vecn(&P), &vecn(&Q), &num(2.0));
    assert_close(to_f64(&result), 1.381955499);
}

#[test]
fn chebyshev() {
    let result = distance::distance::chebyshev(&vecn(&P), &vecn(&Q));
    assert_close(to_f64(&result), 1.349);
}

#[test]
fn sorensen() {
    let result = distance::distance::sorensen(&vecn(&P), &vecn(&Q));
    assert_close(to_f64(&result), 0.233867536);
}

#[test]
fn gower() {
    let result = distance::distance::gower(&vecn(&P), &vecn(&Q));
    assert_close(to_f64(&result), 0.549666667);
}

#[test]
fn soergel() {
    let result = distance::distance::soergel(&vecn(&P), &vecn(&Q));
    assert_close(to_f64(&result), 0.3790804598);
}

#[test]
fn distance_kulczynski() {
    let result = distance::distance::kulczynski(&vecn(&P), &vecn(&Q));
    assert_close(to_f64(&result), 0.610514624);
}

#[test]
fn canberra() {
    let result = distance::distance::canberra(&vecn(&P), &vecn(&Q));
    assert_close(to_f64(&result), 1.402566398);
}

#[test]
fn lorentzian() {
    let result = distance::distance::lorentzian(&vecn(&P), &vecn(&Q));
    assert_close(to_f64(&result), 1.11635397);
}

#[test]
fn intersection() {
    let result = distance::distance::intersection(&vecn(&P), &vecn(&Q));
    assert_close(to_f64(&result), 0.8245);
}

#[test]
fn wave_hedges() {
    let result = distance::distance::wave_hedges(&vecn(&P), &vecn(&Q));
    assert_close(to_f64(&result), 1.574042553);
}

#[test]
fn czekanowski() {
    let result = distance::distance::czekanowski(&vecn(&P), &vecn(&Q));
    assert_close(to_f64(&result), 0.2338675365);
}

#[test]
fn motyka() {
    let result = distance::distance::motyka(&vecn(&P), &vecn(&Q));
    assert_close(to_f64(&result), 0.6169337683);
}

#[test]
fn ruzicka() {
    let result = distance::distance::ruzicka(&vecn(&P), &vecn(&Q));
    assert_close(to_f64(&result), 0.620919540);
}

#[test]
fn inner_product() {
    let result = distance::distance::inner_product(&vecn(&P), &vecn(&Q));
    assert_close(to_f64(&result), 5.24235);
}

#[test]
fn harmonic_mean() {
    let result = distance::distance::harmonic_mean(&vecn(&P), &vecn(&Q));
    assert_close(to_f64(&result), 3.1039689645);
}

#[test]
fn jaccard() {
    let result = distance::distance::jaccard(&vecn(&P), &vecn(&Q));
    assert_close(to_f64(&result), 0.267024704);
}

#[test]
fn dice() {
    let result = distance::distance::dice(&vecn(&P), &vecn(&Q));
    assert_close(to_f64(&result), 0.154084541);
}

#[test]
fn bhattacharyya() {
    let result = distance::distance::bhattacharyya(&vecn(&P), &vecn(&Q));
    assert_close(to_f64(&result), -1.173638517);
}

#[test]
fn hellinger() {
    let result = distance::distance::hellinger(&vecn(&P), &vecn(&Q));
    assert_close(to_f64(&result), 1.080301318);
}

#[test]
fn matusita() {
    let result = distance::distance::matusita(&vecn(&P), &vecn(&Q));
    assert_close(to_f64(&result), 0.7638883876);
}

#[test]
fn squared_chord() {
    let result = distance::distance::squared_chord(&vecn(&P), &vecn(&Q));
    assert_close(to_f64(&result), 0.5835254687);
}

#[test]
fn squared_euclidean() {
    let result = distance::distance::squared_euclidean(&vecn(&P), &vecn(&Q));
    assert_close(to_f64(&result), 1.909801);
}

#[test]
fn pearson() {
    let result = distance::distance::pearson(&vecn(&P), &vecn(&Q));
    assert_close(to_f64(&result), 2.117983017);
}

#[test]
fn neyman() {
    // invert P and Q to avoid division by zero
    let result = distance::distance::neyman(&vecn(&Q), &vecn(&P));
    assert_close(to_f64(&result), 2.117983017);
}

#[test]
fn squared() {
    let result = distance::distance::squared(&vecn(&P), &vecn(&Q));
    assert_close(to_f64(&result), 0.843062071);
}

#[test]
fn probabilistic_symmetric() {
    let result = distance::distance::probabilistic_symmetric(&vecn(&P), &vecn(&Q));
    assert_close(to_f64(&result), 1.686124142);
}

#[test]
fn divergence() {
    let result = distance::distance::divergence(&vecn(&P), &vecn(&Q));
    assert_close(to_f64(&result), 2.32411941);
}
