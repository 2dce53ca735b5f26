use distance::value::Number;
use num_bigint::BigInt;
use num_traits::{Signed, ToPrimitive, Zero};

const P: [f64; 3] = [0.000, 1.700, 2.350];
const Q: [f64; 3] = [0.300, 1.700, 1.001];

const P2: [f64; 3] = [1.0, 2.0, 3.0];
const Q2: [f64; 3] = [2.0, 0.0, 1.0];

fn num(x: f64) -> Number {
    if x.is_nan() {
        return Number::nan();
    }
    if x.is_infinite() {
        return if x > 0.0 { Number::pos_inf() } else { Number::neg_inf() };
    }
    let bits = x.to_bits();
    let neg = (bits >> 63) == 1;
    let e = ((bits >> 52) & 0x7ff) as i64;
    let frac = bits & ((1u64 << 52) - 1);
    let (mant, exp) = if e == 0 { (frac, -1074i64) } else { (frac | (1u64 << 52), e - 1075) };
    Number::from_dyadic(neg, mant, exp as i32)
}

fn vecn(xs: &[f64]) -> Vec<Number> {
    xs.iter().map(|&x| num(x)).collect()
}

fn ratio_to_f64(n: &BigInt, d: &BigInt) -> f64 {
    if n.is_zero() {
        return 0.0;
    }
    let neg = n.is_negative();
    let na = n.abs();
    let shift = na.bits() as i64 - d.bits() as i64 - 64;
    let (n2, d2) = if shift >= 0 { (na, d << (shift as usize)) } else { (&na << ((-shift) as usize), d.clone()) };
    let q = &n2 / &d2;
    let v = q.to_f64().unwrap_or(f64::INFINITY) * 2f64.powi(shift as i32);
    if neg { -v } else { v }
}

fn to_f64(n: &Number) -> f64 {
    if n.is_nan() {
        return f64::NAN;
    }
    if n.is_pos_inf() {
        return f64::INFINITY;
    }
    if n.is_neg_inf() {
        return f64::NEG_INFINITY;
    }
    let (nu, de) = n.parts().unwrap();
    ratio_to_f64(&nu, &de)
}

fn assert_close(a: f64, b: f64) {
    assert!((a - b).abs() <= 1e-9, "{} vs {}", a, b);
}


#[test]
fn euclidean_f64() {
    let result = distance::euclidean(&vecn(&P), &vecn(&Q));
    assert_close(to_f64(&result), 1.381955499);
}

#[test]
fn euclidean_u32() {
    let result = distance::euclidean(&vecn(&P2), &vecn(&Q2));
    assert_close(to_f64(&result), 3.0);
}

#[test]
fn manhattan_f64() {
    let result = distance::manhattan(&vecn(&P), &vecn(&Q));
    assert_close(to_f64(&result), 1.649000000);
}

#[test]
fn manhattan_u32() {
    let result = distance::manhattan(&vecn(&P2), &vecn(&Q2));
    assert_close(to_f64(&result), 5.0);
}

#[test]
fn minkowski_f64() {
    let result = distance::minkowski(&vecn(&P), &vecn(&Q), &num(2.0));
    assert_close(to_f64(&result), 1.381955499);
}

#[test]
fn minkowski_u32() {
    let result = distance::minkowski(&vecn(&P2), &vecn(&Q2), &num(2.0));
    assert_close(to_f64(&result), 3.0);
}

#[test]
fn chebyshev_f64() {
    let result = distance::chebyshev(&vecn(&P), &vecn(&Q));
    assert_close(to_f64(&result), 1.349);
}

#[test]
fn chebyshev_u32() {
    let result = distance::chebyshev(&vecn(&P2), &vecn(&Q2));
    assert_close(to_f64(&result), 2.0);
}

#[test]
fn sorensen_f64() {
    let result = distance::sorensen(&vecn(&P), &vecn(&Q));
    assert_close(to_f64(&result), 0.233867536);
}

#[test]
fn sorensen_u32() {
    let result = distance::sorensen(&vecn(&P2), &vecn(&Q2));
    assert_close(to_f64(&result), 0.555555556);
}

#[test]
fn gower_f64() {
    let result = distance::gower(&vecn(&P), &vecn(&Q));
    assert_close(to_f64(&result), 0.549666667);
}

#[test]
fn gower_u32() {
    let result = distance::gower(&vecn(&P2), &vecn(&Q2));
    assert_close(to_f64(&result), 1.666666667);
}

#[test]
fn soergel_f64() {
    let result = distance::soergel(&vecn(&P), &vecn(&Q));
    assert_close(to_f64(&result), 0.3790804598);
}

#[test]
fn soergel_u32() {
    let result = distance::soergel(&vecn(&P2), &vecn(&Q2));
    assert_close(to_f64(&result), 0.714285714);
}

#[test]
fn kulczynski_f64() {
    let result = distance::kulczynski(&vecn(&P), &vecn(&Q));
    assert_close(to_f64(&result), 0.610514624);
}

#[test]
fn kulczynski_u32() {
    let result = distance::kulczynski(&vecn(&P2), &vecn(&Q2));
    assert_close(to_f64(&result), 2.5);
}

#[test]
fn canberra_f64() {
    let result = distance::canberra(&vecn(&P), &vecn(&Q));
    assert_close(to_f64(&result), 1.402566398);
}

#[test]
fn canberra_u32() {
    let result = distance::canberra(&vecn(&P2), &vecn(&Q2));
    assert_close(to_f64(&result), 1.833333333);
}

#[test]
fn lorentzian_f64() {
    let result = distance::lorentzian(&vecn(&P), &vecn(&Q));
    assert_close(to_f64(&result), 1.11635397);
}

#[test]
fn lorentzian_u32() {
    let result = distance::lorentzian(&vecn(&P2), &vecn(&Q2));
    assert_close(to_f64(&result), 2.890371758);
}

#[test]
fn intersection_f64() {
    let result = distance::intersection(&vecn(&P), &vecn(&Q));
    assert_close(to_f64(&result), 0.8245);
}

#[test]
fn intersection_u32() {
    let result = distance::intersection(&vecn(&P2), &vecn(&Q2));
    assert_close(to_f64(&result), 2.5);
}

#[test]
fn wave_hedges_f64() {
    let result = distance::wave_hedges(&vecn(&P), &vecn(&Q));
    assert_close(to_f64(&result), 1.574042553);
}

#[test]
fn wave_hedges_u32() {
    let result = distance::wave_hedges(&vecn(&P2), &vecn(&Q2));
    assert_close(to_f64(&result), 2.166666667);
}

#[test]
fn czekanowski_f64() {
    let result = distance::czekanowski(&vecn(&P), &vecn(&Q));
    assert_close(to_f64(&result), 0.2338675365);
}

#[test]
fn czekanowski_u32() {
    let result = distance::czekanowski(&vecn(&P2), &vecn(&Q2));
    assert_close(to_f64(&result), 0.555555556);
}

#[test]
fn motyka_f64() {
    let result = distance::motyka(&vecn(&P), &vecn(&Q));
    assert_close(to_f64(&result), 0.6169337683);
}

#[test]
fn motyka_u32() {
    let result = distance::motyka(&vecn(&P2), &vecn(&Q2));
    assert_close(to_f64(&result), 0.777777778);
}

#[test]
fn ruzicka_f64() {
    let result = distance::ruzicka(&vecn(&P), &vecn(&Q));
    assert_close(to_f64(&result), 0.620919540);
}

#[test]
fn ruzicka_u32() {
    let result = distance::ruzicka(&vecn(&P2), &vecn(&Q2));
    assert_close(to_f64(&result), 0.285714286);
}
