use sm::poly::Poly;
use sm::Coef;

#[derive(Clone, Copy, PartialEq, Debug)]
struct F(f64);

impl Coef for F {

    fn zero_spec() -> F {
        unreachable!()
    }

    fn one_spec() -> F {
        unreachable!()
    }

    fn plus_spec(_a: F, _b: F) -> F {
        unreachable!()
    }

    fn minus_spec(_a: F, _b: F) -> F {
        unreachable!()
    }

    fn times_spec(_a: F, _b: F) -> F {
        unreachable!()
    }

    fn neg_spec(_a: F) -> F {
        unreachable!()
    }

    fn law_plus_comm(_a: F, _b: F) {
        unreachable!()
    }

    fn law_plus_assoc(_a: F, _b: F, _c: F) {
        unreachable!()
    }

    fn law_plus_zero(_a: F) {
        unreachable!()
    }

    fn law_plus_neg(_a: F) {
        unreachable!()
    }

    fn law_minus_is_plus_neg(_a: F, _b: F) {
        unreachable!()
    }

    fn law_times_comm(_a: F, _b: F) {
        unreachable!()
    }

    fn law_times_assoc(_a: F, _b: F, _c: F) {
        unreachable!()
    }

    fn law_times_one(_a: F) {
        unreachable!()
    }

    fn law_times_zero(_a: F) {
        unreachable!()
    }

    fn law_one_nonzero() {
        unreachable!()
    }

    fn law_distrib(_a: F, _b: F, _c: F) {
        unreachable!()
    }
    fn zero() -> F {
        F(0.0)
    }

    fn one() -> F {
        F(1.0)
    }

    fn plus(a: F, b: F) -> F {
        F(a.0 + b.0)
    }

    fn minus(a: F, b: F) -> F {
        F(a.0 - b.0)
    }

    fn times(a: F, b: F) -> F {
        F(a.0 * b.0)
    }

    fn neg(a: F) -> F {
        F(-a.0)
    }

    fn is_zero(a: F) -> bool {
        a.0 == 0.0
    }
}

fn poly_of(vals: &[f64]) -> Poly<F> {
    Poly::new(vals.iter().map(|v| F(*v)).collect())
}

fn float_assert_eq(left_val: f64, right_val: f64) {
    if !((left_val - right_val).abs() <= 10e-9) {
        panic!(
            r#"assertion `left == right` failed
left: {left_val:?}
right: {right_val:?}"#
        );
    }
}

fn vec_float_assert_eq(left_val: &[F], right_val: &[f64]) {
    assert_eq!(left_val.len(), right_val.len());
    for (left_val, right_val) in left_val.iter().zip(right_val) {
        float_assert_eq(left_val.0, *right_val);
    }
}

fn check_mul(p1: &[f64], p2: &[f64], expected: &[f64]) {
    let p1 = poly_of(p1);
    let p2 = poly_of(p2);
    let p3 = p1.times(p2);
    vec_float_assert_eq(&p3.coeffs(), expected);
}

fn check_add(p1: &[f64], p2: &[f64], expected: &[f64]) {
    let p1 = poly_of(p1);
    let p2 = poly_of(p2);
    let p3 = p1.plus(p2);
    vec_float_assert_eq(&p3.coeffs(), expected);
}

#[test]
fn test_mul() {
    check_mul(&[1.0], &[1.0], &[1.0]);
    check_mul(&[1.0], &[2.0], &[2.0]);
    check_mul(&[1.0, 0.0], &[2.0], &[2.0, 0.0]);
    check_mul(&[1.0, 0.0], &[1.0, 0.0], &[1.0, 0.0, 0.0]);
    check_mul(&[1.0, -1.0], &[1.0, -1.0], &[1.0, -2.0, 1.0]);
    check_mul(&[1.0, -3.0], &[2.0, 1.0, 2.0], &[2.0, -5.0, -1.0, -6.0]);
    check_mul(
        &[1.0, -2.0, 3.0, -4.0],
        &[2.0, 1.0, -5.0, 6.0],
        &[2.0, -3.0, -1.0, 11.0, -31.0, 38.0, -24.0],
    );
}

#[test]
fn test_add() {
    check_add(&[1.0], &[1.0], &[2.0]);
    check_add(&[1.0], &[2.0], &[3.0]);
    check_add(&[1.0, 0.0], &[2.0], &[1.0, 2.0]);
    check_add(&[1.0, 0.0], &[1.0, 0.0], &[2.0, 0.0]);
    check_add(&[1.0, -1.0], &[1.0, -1.0], &[2.0, -2.0]);
    check_add(&[1.0, -3.0], &[2.0, 1.0, 2.0], &[2.0, 2.0, -1.0]);
    check_add(
        &[1.0, -2.0, 3.0, -4.0],
        &[2.0, 1.0, -5.0, 6.0],
        &[3.0, -1.0, -2.0, 2.0],
    );
    check_add(
        &[1.0, 1.0, 1.0, 1.0, 1.0, -3.0],
        &[-1.0, -1.0, -1.0, 0.0],
        &[1.0, 1.0, 0.0, 0.0, 0.0, -3.0],
    );
}

#[test]
fn test_sub() {
    let p1 = poly_of(&[1.0, -3.0]);
    let p2 = poly_of(&[2.0, 1.0, 2.0]);
    let p3 = p1.minus(p2);
    vec_float_assert_eq(&p3.coeffs(), &[-2.0, 0.0, -5.0]);
}

#[test]
fn mul_associativity_concrete() {
    let p1 = vec![3i64, -2, 7];
    let p2 = vec![5i64, 1];
    let p3 = vec![-4i64, 9, 2, 6];
    let left = Poly::new(p1.clone())
        .times(Poly::new(p2.clone()))
        .times(Poly::new(p3.clone()));
    let right = Poly::new(p1).times(Poly::new(p2).times(Poly::new(p3)));
    assert_eq!(left.coeffs(), right.coeffs());
}

#[test]
fn add_commutativity_concrete() {
    let p1 = vec![3i64, -2, 7];
    let p2 = vec![5i64, 1];
    let left = Poly::new(p1.clone()).plus(Poly::new(p2.clone()));
    let right = Poly::new(p2).plus(Poly::new(p1));
    assert_eq!(left.coeffs(), right.coeffs());
}

#[test]
fn reciprocal_reverses_and_trims() {
    let p = Poly::new(vec![1i64, 2, 0]);
    assert_eq!(p.reciprocal().coeffs(), vec![2i64, 1]);
    let q = Poly::new(vec![4i64, 0, 5]);
    assert_eq!(q.reciprocal().coeffs(), vec![5i64, 0, 4]);
}

#[test]
fn reciprocal_round_trip() {
    let p = Poly::new(vec![1i64, -5, 6]);
    let back = p.reciprocal().reciprocal();
    assert_eq!(back.coeffs(), vec![1i64, -5, 6]);
    let q = poly_of(&[2.0, 0.0, -1.5, 7.0]);
    let back = q.reciprocal().reciprocal();
    vec_float_assert_eq(&back.coeffs(), &[2.0, 0.0, -1.5, 7.0]);
}
