use distance::value::Number;
use num_bigint::BigInt;
use num_traits::{Signed, ToPrimitive, Zero};

const P: [f64; 3] = [0.000, 1.700, 2.350];
const Q: [f64; 3] = [0.300, 1.700, 1.001];

fn num(x: f64) -> Number {
    if x.is_nan() {
        return Number::nan();
    }
    if x.is_infinite() {
        return if x > 0.0 { Number::pos_inf() } else { Number::neg_inf() };
    }
    let bits = x.to_bits();
    let neg = (bits >> 63) == 1;
    let e = ((bits >> 52) & 0x7ff) as i64;
    let frac = bits & ((1u64 << 52) - 1);
    let (mant, exp) = if e == 0 { (frac, -1074i64) } else { (frac | (1u64 << 52), e - 1075) };
    Number::from_dyadic(neg, mant, exp as i32)
}

fn vecn(xs: &[f64]) -> Vec<Number> {
    xs.iter().map(|&x| num(x)).collect()
}

fn ratio_to_f64(n: &BigInt, d: &BigInt) -> f64 {
    if n.is_zero() {
        return 0.0;
    }
    let neg = n.is_negative();
    let na = n.abs();
    let shift = na.bits() as i64 - d.bits() as i64 - 64;
    let (n2, d2) = if shift >= 0 { (na, d << (shift as usize)) } else { (&na << ((-shift) as usize), d.clone()) };
    let q = &n2 / &d2;
    let v = q.to_f64().unwrap_or(f64::INFINITY) * 2f64.powi(shift as i32);
    if neg { -v } else { v }
}

fn to_f64(n: &Number) -> f64 {
    if n.is_nan() {
        return f64::NAN;
    }
    if n.is_pos_inf() {
        return f64::INFINITY;
    }
    if n.is_neg_inf() {
        return f64::NEG_INFINITY;
    }
    let (nu, de) = n.parts().unwrap();
    ratio_to_f64(&nu, &de)
}

fn assert_close(a: f64, b: f64) {
    assert!((a - b).abs() <= 1e-9, "{} vs {}", a, b);
}

#[test]
fn cosine() {
    let result = distance::similarity::cosine(&vecn(&P), &vecn(&Q));
    assert_close(to_f64(&result), 0.905759279);
}

#[test]
fn similarity_kulczynski() {
    let result = distance::similarity::kulczynski(&vecn(&P), &vecn(&Q));
    assert_close(to_f64(&result), 1.637962402);
}

#[test]
fn fidelity() {
    let result = distance::similarity::fidelity(&vecn(&P), &vecn(&Q));
    assert_close(to_f64(&result), 3.233737266);
}
