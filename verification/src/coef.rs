//! The abstract coefficient ring that polynomials, transfer functions and
//! signal combinators are generic over, together with its wrapping `i64`
//! instance.

use vstd::arithmetic::div_mod::{
    lemma_add_mod_noop, lemma_fundamental_div_mod, lemma_mod_multiples_basic, lemma_small_mod,
};
use vstd::prelude::*;
use vstd::wrapping::i64_specs;

verus! {

/// A commutative ring of coefficients: every operation is total, its meaning
/// is pinned by a spec function, and the usual ring identities are trait
/// obligations that every implementation must prove.
pub trait Coef: Sized + Copy {
    spec fn zero_spec() -> Self;

    spec fn one_spec() -> Self;

    spec fn plus_spec(a: Self, b: Self) -> Self;

    spec fn minus_spec(a: Self, b: Self) -> Self;

    spec fn times_spec(a: Self, b: Self) -> Self;

    spec fn neg_spec(a: Self) -> Self;

    fn zero() -> (r: Self)
        ensures
            r == Self::zero_spec(),
    ;

    fn one() -> (r: Self)
        ensures
            r == Self::one_spec(),
    ;

    fn plus(a: Self, b: Self) -> (r: Self)
        ensures
            r == Self::plus_spec(a, b),
    ;

    fn minus(a: Self, b: Self) -> (r: Self)
        ensures
            r == Self::minus_spec(a, b),
    ;

    fn times(a: Self, b: Self) -> (r: Self)
        ensures
            r == Self::times_spec(a, b),
    ;

    fn neg(a: Self) -> (r: Self)
        ensures
            r == Self::neg_spec(a),
    ;

    fn is_zero(a: Self) -> (r: bool)
        ensures
            r == (a == Self::zero_spec()),
    ;

    proof fn law_plus_comm(a: Self, b: Self)
        ensures
            Self::plus_spec(a, b) == Self::plus_spec(b, a),
    ;

    proof fn law_plus_assoc(a: Self, b: Self, c: Self)
        ensures
            Self::plus_spec(Self::plus_spec(a, b), c) == Self::plus_spec(
                a,
                Self::plus_spec(b, c),
            ),
    ;

    proof fn law_plus_zero(a: Self)
        ensures
            Self::plus_spec(a, Self::zero_spec()) == a,
    ;

    proof fn law_plus_neg(a: Self)
        ensures
            Self::plus_spec(a, Self::neg_spec(a)) == Self::zero_spec(),
    ;

    proof fn law_minus_is_plus_neg(a: Self, b: Self)
        ensures
            Self::minus_spec(a, b) == Self::plus_spec(a, Self::neg_spec(b)),
    ;

    proof fn law_times_comm(a: Self, b: Self)
        ensures
            Self::times_spec(a, b) == Self::times_spec(b, a),
    ;

    proof fn law_times_assoc(a: Self, b: Self, c: Self)
        ensures
            Self::times_spec(Self::times_spec(a, b), c) == Self::times_spec(
                a,
                Self::times_spec(b, c),
            ),
    ;

    proof fn law_times_one(a: Self)
        ensures
            Self::times_spec(a, Self::one_spec()) == a,
    ;

    proof fn law_times_zero(a: Self)
        ensures
            Self::times_spec(a, Self::zero_spec()) == Self::zero_spec(),
    ;

    proof fn law_one_nonzero()
        ensures
            Self::one_spec() != Self::zero_spec(),
    ;

    proof fn law_distrib(a: Self, b: Self, c: Self)
        ensures
            Self::times_spec(a, Self::plus_spec(b, c)) == Self::plus_spec(
                Self::times_spec(a, b),
                Self::times_spec(a, c),
            ),
    ;
}

/// The modulus of 64-bit wrapping arithmetic.
pub open spec fn r64() -> int {
    0x1_0000_0000_0000_0000
}

/// The canonical signed 64-bit value congruent to `x` modulo `2^64`.
pub open spec fn wrap64(x: int) -> i64 {
    i64_specs::signed_crop(x)
}

proof fn lemma_crop_in_range(x: int)
    ensures
        i64::MIN <= wrap64(x) <= i64::MAX,
        (x - wrap64(x)) % r64() == 0,
{
    let m = x % r64();
    let q = x / r64();
    lemma_fundamental_div_mod(x, r64());
    if m > i64::MAX {
        assert(x - wrap64(x) == r64() * (q + 1));
        lemma_mod_multiples_basic(q + 1, r64());
        assert((r64() * (q + 1)) % r64() == ((q + 1) * r64()) % r64());
    } else {
        assert(x - wrap64(x) == r64() * q);
        lemma_mod_multiples_basic(q, r64());
        assert((r64() * q) % r64() == (q * r64()) % r64());
    }
}

proof fn lemma_congruent_equal(a: i64, b: i64)
    requires
        (a - b) % r64() == 0,
    ensures
        a == b,
{
    let d = a - b;
    if d >= 0 {
        lemma_small_mod(d as nat, r64() as nat);
    } else {
        lemma_small_mod((d + r64()) as nat, r64() as nat);
        assert((r64() * 1 + d) % r64() == d % r64()) by {
            vstd::arithmetic::div_mod::lemma_mod_multiples_vanish(1, d, r64());
        }
        assert(d + r64() == 0);
        assert(false);
    }
}

proof fn lemma_congruent_sum(p: int, q: int)
    requires
        p % r64() == 0,
        q % r64() == 0,
    ensures
        (p + q) % r64() == 0,
{
    lemma_add_mod_noop(p, q, r64());
}

/// Congruent integers crop to the same value.
proof fn lemma_wrap_eq(x: int, y: int)
    requires
        (x - y) % r64() == 0,
    ensures
        wrap64(x) == wrap64(y),
{
    lemma_crop_in_range(x);
    lemma_crop_in_range(y);
    lemma_congruent_sum(x - wrap64(x), -((y - wrap64(y)) as int) - (x - y));
    assert((wrap64(y) - wrap64(x)) % r64() == 0);
    lemma_congruent_equal(wrap64(y), wrap64(x));
}

proof fn lemma_wrap_id(a: i64)
    ensures
        wrap64(a as int) == a,
{
    lemma_crop_in_range(a as int);
    lemma_congruent_equal(wrap64(a as int), a);
}

/// Replacing a factor by a congruent one keeps the product congruent.
proof fn lemma_wrap_mul_left(x: int, y: int)
    ensures
        wrap64(wrap64(x) * y) == wrap64(x * y),
{
    lemma_crop_in_range(x);
    let d = x - wrap64(x);
    let k = d / r64();
    lemma_fundamental_div_mod(d, r64());
    assert(d == r64() * k);
    assert(x * y - wrap64(x) * y == (r64() * k) * y) by (nonlinear_arith)
        requires
            d == x - wrap64(x),
            d == r64() * k,
    ;
    assert((r64() * k) * y == (k * y) * r64()) by (nonlinear_arith);
    lemma_mod_multiples_basic(k * y, r64());
    lemma_wrap_eq(x * y, wrap64(x) * y);
}

/// Replacing a summand by a congruent one keeps the sum congruent.
proof fn lemma_wrap_add_left(x: int, y: int)
    ensures
        wrap64(wrap64(x) + y) == wrap64(x + y),
{
    lemma_crop_in_range(x);
    lemma_wrap_eq(x + y, wrap64(x) + y);
}

proof fn lemma_wrapping_add_is_crop(a: i64, b: i64)
    ensures
        i64_specs::wrapping_add(a, b) == wrap64(a + b),
{
    let x = a + b;
    if x > i64::MAX {
        lemma_small_mod(x as nat, r64() as nat);
    } else if x < i64::MIN {
        lemma_small_mod((x + r64()) as nat, r64() as nat);
        assert((r64() * (-1) + (x + r64())) % r64() == (x + r64()) % r64()) by {
            vstd::arithmetic::div_mod::lemma_mod_multiples_vanish(-1, x + r64(), r64());
        }
    } else if x >= 0 {
        lemma_small_mod(x as nat, r64() as nat);
    } else {
        lemma_small_mod((x + r64()) as nat, r64() as nat);
        assert((r64() * 1 + x) % r64() == x % r64()) by {
            vstd::arithmetic::div_mod::lemma_mod_multiples_vanish(1, x, r64());
        }
    }
}

proof fn lemma_wrapping_sub_is_crop(a: i64, b: i64)
    ensures
        i64_specs::wrapping_sub(a, b) == wrap64(a - b),
{
    let x = a - b;
    if x > i64::MAX {
        lemma_small_mod(x as nat, r64() as nat);
    } else if x < i64::MIN {
        lemma_small_mod((x + r64()) as nat, r64() as nat);
        assert((r64() * (-1) + (x + r64())) % r64() == (x + r64()) % r64()) by {
            vstd::arithmetic::div_mod::lemma_mod_multiples_vanish(-1, x + r64(), r64());
        }
    } else if x >= 0 {
        lemma_small_mod(x as nat, r64() as nat);
    } else {
        lemma_small_mod((x + r64()) as nat, r64() as nat);
        assert((r64() * 1 + x) % r64() == x % r64()) by {
            vstd::arithmetic::div_mod::lemma_mod_multiples_vanish(1, x, r64());
        }
    }
}

impl Coef for i64 {
    open spec fn zero_spec() -> i64 {
        0
    }

    open spec fn one_spec() -> i64 {
        1
    }

    open spec fn plus_spec(a: i64, b: i64) -> i64 {
        wrap64(a + b)
    }

    open spec fn minus_spec(a: i64, b: i64) -> i64 {
        wrap64(a - b)
    }

    open spec fn times_spec(a: i64, b: i64) -> i64 {
        wrap64(a * b)
    }

    open spec fn neg_spec(a: i64) -> i64 {
        wrap64(-a)
    }

    fn zero() -> (r: i64) {
        0
    }

    fn one() -> (r: i64) {
        1
    }

    fn plus(a: i64, b: i64) -> (r: i64) {
        proof {
            lemma_wrapping_add_is_crop(a, b);
        }
        a.wrapping_add(b)
    }

    fn minus(a: i64, b: i64) -> (r: i64) {
        proof {
            lemma_wrapping_sub_is_crop(a, b);
        }
        a.wrapping_sub(b)
    }

    fn times(a: i64, b: i64) -> (r: i64) {
        a.wrapping_mul(b)
    }

    fn neg(a: i64) -> (r: i64) {
        proof {
            lemma_wrapping_sub_is_crop(0, a);
        }
        0i64.wrapping_sub(a)
    }

    fn is_zero(a: i64) -> (r: bool) {
        a == 0
    }

    proof fn law_plus_comm(a: i64, b: i64) {
    }

    proof fn law_plus_assoc(a: i64, b: i64, c: i64) {
        lemma_wrap_add_left(a + b, c as int);
        lemma_wrap_add_left(b + c, a as int);
        assert(wrap64(a + b) + c == c + wrap64(a + b));
        assert(wrap64((a + b) + c) == wrap64(a + (b + c)));
    }

    proof fn law_plus_zero(a: i64) {
        lemma_wrap_id(a);
    }

    proof fn law_plus_neg(a: i64) {
        lemma_wrap_add_left(-a, a as int);
        assert(wrap64(-a) + a == a + wrap64(-a));
        lemma_crop_in_range(0);
        lemma_congruent_equal(wrap64(0), 0);
    }

    proof fn law_minus_is_plus_neg(a: i64, b: i64) {
        lemma_wrap_add_left(-b, a as int);
        assert(wrap64(-b) + a == a + wrap64(-b));
    }

    proof fn law_times_comm(a: i64, b: i64) {
        assert(a * b == b * a) by (nonlinear_arith);
    }

    proof fn law_times_assoc(a: i64, b: i64, c: i64) {
        lemma_wrap_mul_left(a * b, c as int);
        lemma_wrap_mul_left(b * c, a as int);
        assert(wrap64(b * c) * a == a * wrap64(b * c)) by (nonlinear_arith);
        assert((a * b) * c == a * (b * c)) by (nonlinear_arith);
    }

    proof fn law_times_one(a: i64) {
        lemma_wrap_id(a);
    }

    proof fn law_times_zero(a: i64) {
        lemma_crop_in_range(0);
        lemma_congruent_equal(wrap64(0), 0);
    }

    proof fn law_one_nonzero() {
    }

    proof fn law_distrib(a: i64, b: i64, c: i64) {
        lemma_wrap_mul_left(b + c, a as int);
        assert(wrap64(b + c) * a == a * wrap64(b + c)) by (nonlinear_arith);
        assert(a * (b + c) == a * b + a * c) by (nonlinear_arith);
        lemma_wrap_add_left(a * b, a * c);
        lemma_wrap_add_left(a * c, wrap64(a * b) as int);
        assert(wrap64(a * c) + wrap64(a * b) == wrap64(a * b) + wrap64(a * c));
        assert(wrap64(a * b + a * c) == wrap64(wrap64(a * b) + wrap64(a * c)));
    }
}

} // verus!
