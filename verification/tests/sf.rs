use sm::poly::Poly;
use sm::sf::{delay, gain, SystemFunction};
use sm::sm::{transduce, StateFull};
use sm::Coef;

#[derive(Clone, Copy, PartialEq, Debug)]
struct F(f64);

impl Coef for F {

    fn zero_spec() -> F {
        unreachable!()
    }

    fn one_spec() -> F {
        unreachable!()
    }

    fn plus_spec(_a: F, _b: F) -> F {
        unreachable!()
    }

    fn minus_spec(_a: F, _b: F) -> F {
        unreachable!()
    }

    fn times_spec(_a: F, _b: F) -> F {
        unreachable!()
    }

    fn neg_spec(_a: F) -> F {
        unreachable!()
    }

    fn law_plus_comm(_a: F, _b: F) {
        unreachable!()
    }

    fn law_plus_assoc(_a: F, _b: F, _c: F) {
        unreachable!()
    }

    fn law_plus_zero(_a: F) {
        unreachable!()
    }

    fn law_plus_neg(_a: F) {
        unreachable!()
    }

    fn law_minus_is_plus_neg(_a: F, _b: F) {
        unreachable!()
    }

    fn law_times_comm(_a: F, _b: F) {
        unreachable!()
    }

    fn law_times_assoc(_a: F, _b: F, _c: F) {
        unreachable!()
    }

    fn law_times_one(_a: F) {
        unreachable!()
    }

    fn law_times_zero(_a: F) {
        unreachable!()
    }

    fn law_one_nonzero() {
        unreachable!()
    }

    fn law_distrib(_a: F, _b: F, _c: F) {
        unreachable!()
    }
    fn zero() -> F {
        F(0.0)
    }

    fn one() -> F {
        F(1.0)
    }

    fn plus(a: F, b: F) -> F {
        F(a.0 + b.0)
    }

    fn minus(a: F, b: F) -> F {
        F(a.0 - b.0)
    }

    fn times(a: F, b: F) -> F {
        F(a.0 * b.0)
    }

    fn neg(a: F) -> F {
        F(-a.0)
    }

    fn is_zero(a: F) -> bool {
        a.0 == 0.0
    }
}

fn poly_of(vals: &[f64]) -> Poly<F> {
    Poly::new(vals.iter().map(|v| F(*v)).collect())
}

const EPSILON: f64 = 1e-10;

fn assert_taps_approx(actual: &[F], expected: &[f64]) {
    assert_eq!(actual.len(), expected.len());
    for (a, e) in actual.iter().zip(expected.iter()) {
        assert!((a.0 - e).abs() < EPSILON, "expected {}, got {}", e, a.0);
    }
}

#[test]
fn into_sm_first_order_taps() {
    let sf = SystemFunction::new(poly_of(&[1.0]), poly_of(&[1.0, -0.5]));
    let filter = sf.into_sm(None, None);
    assert_taps_approx(&filter.feedback_taps(), &[0.5]);
    assert_taps_approx(&filter.feedforward_taps(), &[1.0]);
}

#[test]
fn into_sm_second_order_taps() {
    let sf = SystemFunction::new(poly_of(&[1.0, 2.0, 1.0]), poly_of(&[1.0, -0.8, 0.15]));
    let filter = sf.into_sm(None, None);
    assert_taps_approx(&filter.feedback_taps(), &[-0.15, 0.8]);
    assert_taps_approx(&filter.feedforward_taps(), &[1.0, 2.0, 1.0]);
}

#[test]
fn into_sm_fir_has_no_feedback_taps() {
    let sf = SystemFunction::new(poly_of(&[0.25, 0.5, 0.25]), poly_of(&[1.0]));
    let filter = sf.into_sm(None, None);
    assert_eq!(filter.feedback_taps().len(), 0);
    assert_taps_approx(&filter.feedforward_taps(), &[0.25, 0.5, 0.25]);
}

#[test]
fn integrator_accumulates() {
    let sf = SystemFunction::new(Poly::new(vec![1i64]), Poly::new(vec![1i64, -1]));
    let filter = sf.into_sm(None, None);
    assert_eq!(
        vec![1i64, 3, 6, 10],
        transduce(&filter, &vec![1i64, 2, 3, 4])
    );
}

#[test]
fn seeded_history_shapes_transient() {
    let sf = SystemFunction::new(Poly::new(vec![1i64]), Poly::new(vec![1i64, -1]));
    let filter = sf.into_sm(None, Some(vec![100i64]));
    assert_eq!(
        vec![101i64, 103, 106],
        transduce(&filter, &vec![1i64, 2, 3])
    );
}

#[test]
fn stepper_drives_filter() {
    let sf = SystemFunction::new(Poly::new(vec![1i64]), Poly::new(vec![1i64, -1]));
    let mut stepper = StateFull::new(sf.into_sm(None, None));
    assert_eq!(stepper.step(Some(5)), Some(5));
    assert_eq!(stepper.step(Some(7)), Some(12));
    assert_eq!(stepper.is_done(), false);
    stepper.reset();
    assert_eq!(stepper.step(Some(2)), Some(2));
}

#[test]
fn gain_and_delay_coefficients() {
    let g = gain(F(2.5));
    assert_taps_approx(&g.num_coeffs(), &[2.5]);
    assert_taps_approx(&g.den_coeffs(), &[1.0]);
    let d = delay::<F>();
    assert_taps_approx(&d.num_coeffs(), &[1.0, 0.0]);
    assert_taps_approx(&d.den_coeffs(), &[1.0]);
}

#[test]
fn cascade_multiplies_both_sides() {
    let s1 = SystemFunction::new(poly_of(&[-2.0]), poly_of(&[1.0]));
    let s2 = SystemFunction::new(poly_of(&[-0.1, 0.0]), poly_of(&[-1.0, 1.0]));
    let s3 = s1.cascade(s2);
    assert_taps_approx(&s3.num_coeffs(), &[0.2, 0.0]);
    assert_taps_approx(&s3.den_coeffs(), &[-1.0, 1.0]);
}

#[test]
fn feedback_sub_combination() {
    let s1 = SystemFunction::new(poly_of(&[-2.0]), poly_of(&[1.0]));
    let s2 = SystemFunction::new(poly_of(&[-0.1, 0.0]), poly_of(&[-1.0, 1.0]));
    let s4 = s1.cascade(s2).feedback_sub(None);
    assert_taps_approx(&s4.num_coeffs(), &[0.2, 0.0]);
    assert_taps_approx(&s4.den_coeffs(), &[-0.8, 1.0]);
}

#[test]
fn feedback_add_combination() {
    let s1 = SystemFunction::new(poly_of(&[-2.0]), poly_of(&[1.0]));
    let s2 = SystemFunction::new(poly_of(&[-0.1, 0.0]), poly_of(&[-1.0, 1.0]));
    let s4 = s1.cascade(s2).feedback_add(None);
    assert_taps_approx(&s4.num_coeffs(), &[0.2, 0.0]);
    assert_taps_approx(&s4.den_coeffs(), &[-1.2, 1.0]);
}

#[test]
fn den_reciprocal_for_pole_extraction() {
    let s = SystemFunction::new(poly_of(&[1.0]), poly_of(&[0.63, -1.6, 1.0]));
    assert_taps_approx(&s.den_reciprocal().coeffs(), &[1.0, -1.6, 0.63]);
}
