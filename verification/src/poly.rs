//! Dense polynomials over an abstract coefficient ring, highest degree
//! first. The zero polynomial is not representable: the leading coefficient
//! is always non-zero. Operands of addition and subtraction are aligned from
//! the low-degree end; multiplication is discrete convolution.

use crate::coef::Coef;
use vstd::prelude::*;

verus! {

/// The coefficient of `s` at position `i`, reading positions outside the
/// sequence as zero.
pub open spec fn at_or_zero<C: Coef>(s: Seq<C>, i: int) -> C {
    if 0 <= i < s.len() {
        s[i]
    } else {
        C::zero_spec()
    }
}

/// Coefficientwise sum, operands aligned from the low-degree end.
pub open spec fn poly_plus<C: Coef>(a: Seq<C>, b: Seq<C>) -> Seq<C> {
    let n = if a.len() >= b.len() {
        a.len() as int
    } else {
        b.len() as int
    };
    Seq::new(
        n as nat,
        |i: int| C::plus_spec(at_or_zero(a, i - (n - a.len())), at_or_zero(b, i - (n - b.len()))),
    )
}

/// Coefficientwise difference, operands aligned from the low-degree end.
pub open spec fn poly_minus<C: Coef>(a: Seq<C>, b: Seq<C>) -> Seq<C> {
    let n = if a.len() >= b.len() {
        a.len() as int
    } else {
        b.len() as int
    };
    Seq::new(
        n as nat,
        |i: int| C::minus_spec(at_or_zero(a, i - (n - a.len())), at_or_zero(b, i - (n - b.len()))),
    )
}

/// The partial convolution sum `sum_{k < hi} a[k] * b[i - k]`.
pub open spec fn conv_partial<C: Coef>(a: Seq<C>, b: Seq<C>, i: int, hi: int) -> C
    decreases hi,
{
    if hi <= 0 {
        C::zero_spec()
    } else {
        C::plus_spec(
            conv_partial(a, b, i, hi - 1),
            C::times_spec(at_or_zero(a, hi - 1), at_or_zero(b, i - (hi - 1))),
        )
    }
}

/// The convolution coefficient `sum_k a[k] * b[i - k]`.
pub open spec fn conv_at<C: Coef>(a: Seq<C>, b: Seq<C>, i: int) -> C {
    conv_partial(a, b, i, i + 1)
}

/// The convolution product of two coefficient sequences.
pub open spec fn poly_times<C: Coef>(a: Seq<C>, b: Seq<C>) -> Seq<C> {
    Seq::new((a.len() + b.len() - 1) as nat, |i: int| conv_at(a, b, i))
}

/// `s` in reverse order.
pub open spec fn seq_rev<C>(s: Seq<C>) -> Seq<C> {
    Seq::new(s.len(), |i: int| s[s.len() - 1 - i])
}

/// `s` with its leading zero coefficients removed.
pub open spec fn trim_lead_zeros<C: Coef>(s: Seq<C>) -> Seq<C>
    decreases s.len(),
{
    if s.len() > 0 && s[0] == C::zero_spec() {
        trim_lead_zeros(s.drop_first())
    } else {
        s
    }
}

/// The reciprocal polynomial: coefficients reversed, leading zeros trimmed.
pub open spec fn spec_reciprocal<C: Coef>(s: Seq<C>) -> Seq<C> {
    trim_lead_zeros(seq_rev(s))
}

/// A dense polynomial, highest degree first, leading coefficient non-zero.
pub struct Poly<C: Coef> {
    coeffs: Vec<C>,
}

impl<C: Coef> View for Poly<C> {
    type V = Seq<C>;

    closed spec fn view(&self) -> Seq<C> {
        self.coeffs@
    }
}

impl<C: Coef> Poly<C> {
    /// Well-formedness: non-empty, and the leading coefficient is non-zero.
    pub open spec fn wf(&self) -> bool {
        self@.len() >= 1 && self@[0] != C::zero_spec()
    }

    pub fn new(coeffs: Vec<C>) -> (r: Self)
        requires
            coeffs@.len() >= 1,
            coeffs@[0] != C::zero_spec(),
        ensures
            r@ == coeffs@,
            r.wf(),
    {
        Poly { coeffs }
    }

    pub fn from_vec(coeffs: Vec<C>) -> (r: Self)
        requires
            coeffs@.len() >= 1,
            coeffs@[0] != C::zero_spec(),
        ensures
            r@ == coeffs@,
            r.wf(),
    {
        Poly { coeffs }
    }

    pub fn coeffs(self) -> (r: Vec<C>)
        ensures
            r@ == self@,
    {
        self.coeffs
    }

    /// Duplicates the polynomial coefficient by coefficient.
    pub fn duplicate(&self) -> (r: Poly<C>)
        ensures
            r@ == self@,
    {
        let mut out: Vec<C> = Vec::new();
        for i in 0..self.coeffs.len()
            invariant
                out@.len() == i,
                forall|j: int| 0 <= j < i ==> out@[j] == self@[j],
        {
            out.push(self.coeffs[i]);
        }
        proof {
            assert(out@ =~= self@);
        }
        Poly { coeffs: out }
    }

    /// The constant polynomial `1`.
    pub fn one() -> (r: Self)
        ensures
            r@ == seq![C::one_spec()],
            r.wf(),
    {
        let mut coeffs: Vec<C> = Vec::new();
        coeffs.push(C::one());
        proof {
            C::law_one_nonzero();
            assert(coeffs@ =~= seq![C::one_spec()]);
        }
        Poly { coeffs }
    }

    /// Coefficientwise sum. When the operands have equal length the caller
    /// must ensure the leading coefficients do not cancel: the zero
    /// polynomial is not representable.
    pub fn plus(self, rhs: Poly<C>) -> (r: Poly<C>)
        requires
            self.wf(),
            rhs.wf(),
            self@.len() == rhs@.len() ==> C::plus_spec(self@[0], rhs@[0]) != C::zero_spec(),
        ensures
            r@ == poly_plus(self@, rhs@),
            r.wf(),
    {
        let la = self.coeffs.len();
        let lb = rhs.coeffs.len();
        let n = if la >= lb {
            la
        } else {
            lb
        };
        let mut out: Vec<C> = Vec::new();
        let ghost target = poly_plus(self@, rhs@);
        for i in 0..n
            invariant
                n == if la >= lb {
                    la as int
                } else {
                    lb as int
                },
                la == self@.len(),
                lb == rhs@.len(),
                target == poly_plus(self@, rhs@),
                target.len() == n,
                out@.len() == i,
                forall|j: int| 0 <= j < i ==> out@[j] == target[j],
        {
            let av = if i >= n - la {
                self.coeffs[i - (n - la)]
            } else {
                C::zero()
            };
            let bv = if i >= n - lb {
                rhs.coeffs[i - (n - lb)]
            } else {
                C::zero()
            };
            proof {
                assert(target[i as int] == C::plus_spec(
                    at_or_zero(self@, i - (n - la)),
                    at_or_zero(rhs@, i - (n - lb)),
                ));
            }
            out.push(C::plus(av, bv));
        }
        proof {
            assert(out@ =~= target);
            if la > lb {
                C::law_plus_zero(self@[0]);
            } else if lb > la {
                C::law_plus_comm(C::zero_spec(), rhs@[0]);
                C::law_plus_zero(rhs@[0]);
            }
        }
        Poly { coeffs: out }
    }

    /// Coefficientwise difference. When the operands have equal length the
    /// caller must ensure the leading coefficients do not cancel.
    pub fn minus(self, rhs: Poly<C>) -> (r: Poly<C>)
        requires
            self.wf(),
            rhs.wf(),
            self@.len() == rhs@.len() ==> C::minus_spec(self@[0], rhs@[0]) != C::zero_spec(),
        ensures
            r@ == poly_minus(self@, rhs@),
            r.wf(),
    {
        let la = self.coeffs.len();
        let lb = rhs.coeffs.len();
        let n = if la >= lb {
            la
        } else {
            lb
        };
        let mut out: Vec<C> = Vec::new();
        let ghost target = poly_minus(self@, rhs@);
        for i in 0..n
            invariant
                n == if la >= lb {
                    la as int
                } else {
                    lb as int
                },
                la == self@.len(),
                lb == rhs@.len(),
                target == poly_minus(self@, rhs@),
                target.len() == n,
                out@.len() == i,
                forall|j: int| 0 <= j < i ==> out@[j] == target[j],
        {
            let av = if i >= n - la {
                self.coeffs[i - (n - la)]
            } else {
                C::zero()
            };
            let bv = if i >= n - lb {
                rhs.coeffs[i - (n - lb)]
            } else {
                C::zero()
            };
            proof {
                assert(target[i as int] == C::minus_spec(
                    at_or_zero(self@, i - (n - la)),
                    at_or_zero(rhs@, i - (n - lb)),
                ));
            }
            out.push(C::minus(av, bv));
        }
        proof {
            assert(out@ =~= target);
            if la > lb {
                lemma_minus_zero::<C>(self@[0]);
            } else if lb > la {
                lemma_neg_nonzero::<C>(rhs@[0]);
                C::law_minus_is_plus_neg(C::zero_spec(), rhs@[0]);
                C::law_plus_comm(C::zero_spec(), C::neg_spec(rhs@[0]));
                C::law_plus_zero(C::neg_spec(rhs@[0]));
            }
        }
        Poly { coeffs: out }
    }

    /// The reciprocal polynomial: coefficients reversed, leading zeros
    /// trimmed. Well-formed because the original leading coefficient, now
    /// last, is non-zero.
    pub fn reciprocal(&self) -> (r: Poly<C>)
        requires
            self.wf(),
        ensures
            r@ == spec_reciprocal(self@),
            r.wf(),
    {
        let len = self.coeffs.len();
        let mut rev: Vec<C> = Vec::new();
        for i in 0..len
            invariant
                len == self@.len(),
                rev@.len() == i,
                forall|j: int| 0 <= j < i ==> rev@[j] == self@[len - 1 - j],
        {
            rev.push(self.coeffs[len - 1 - i]);
        }
        proof {
            assert(rev@ =~= seq_rev(self@));
        }
        let mut first_nonzero: usize = 0;
        while first_nonzero < len && C::is_zero(rev[first_nonzero])
            invariant
                len == rev@.len(),
                len == self@.len(),
                rev@ == seq_rev(self@),
                0 <= first_nonzero <= len,
                forall|j: int| 0 <= j < first_nonzero ==> rev@[j] == C::zero_spec(),
                self@[0] != C::zero_spec(),
            decreases len - first_nonzero,
        {
            first_nonzero = first_nonzero + 1;
        }
        proof {
            assert(rev@[len - 1] == self@[0]);
            assert(first_nonzero < len);
            lemma_trim_skips::<C>(rev@, first_nonzero as int);
        }
        let mut out: Vec<C> = Vec::new();
        let mut i: usize = first_nonzero;
        while i < len
            invariant
                len == rev@.len(),
                first_nonzero <= i <= len,
                out@.len() == i - first_nonzero,
                forall|j: int| 0 <= j < out@.len() ==> out@[j] == rev@[first_nonzero + j],
            decreases len - i,
        {
            out.push(rev[i]);
            i = i + 1;
        }
        proof {
            assert(out@ =~= rev@.skip(first_nonzero as int));
        }
        Poly { coeffs: out }
    }
}

/// Subtracting zero changes nothing.
proof fn lemma_minus_zero<C: Coef>(a: C)
    ensures
        C::minus_spec(a, C::zero_spec()) == a,
{
    C::law_plus_neg(C::zero_spec());
    C::law_plus_comm(C::zero_spec(), C::neg_spec(C::zero_spec()));
    C::law_plus_zero(C::neg_spec(C::zero_spec()));
    C::law_minus_is_plus_neg(a, C::zero_spec());
    C::law_plus_zero(a);
}

/// The negation of a non-zero element is non-zero.
proof fn lemma_neg_nonzero<C: Coef>(a: C)
    requires
        a != C::zero_spec(),
    ensures
        C::neg_spec(a) != C::zero_spec(),
{
    if C::neg_spec(a) == C::zero_spec() {
        C::law_plus_neg(a);
        C::law_plus_zero(a);
    }
}

/// Trimming a sequence whose first `j` entries are zero and whose entry `j`
/// is not yields the suffix from `j`.
proof fn lemma_trim_skips<C: Coef>(s: Seq<C>, j: int)
    requires
        0 <= j < s.len(),
        forall|k: int| 0 <= k < j ==> s[k] == C::zero_spec(),
        s[j] != C::zero_spec(),
    ensures
        trim_lead_zeros(s) == s.skip(j),
    decreases j,
{
    if j == 0 {
        assert(trim_lead_zeros(s) == s);
        assert(s.skip(0) =~= s);
    } else {
        assert(s[0] == C::zero_spec());
        assert(s.drop_first() =~= s.skip(1));
        lemma_trim_skips(s.skip(1), j - 1);
        assert(s.skip(1).skip(j - 1) =~= s.skip(j));
    }
}

/// Adding zero on the left changes nothing.
proof fn lemma_plus_zero_left<C: Coef>(a: C)
    ensures
        C::plus_spec(C::zero_spec(), a) == a,
{
    C::law_plus_comm(C::zero_spec(), a);
    C::law_plus_zero(a);
}

/// Multiplying zero on the left yields zero.
proof fn lemma_times_zero_left<C: Coef>(a: C)
    ensures
        C::times_spec(C::zero_spec(), a) == C::zero_spec(),
{
    C::law_times_comm(C::zero_spec(), a);
    C::law_times_zero(a);
}

/// Distributivity on the right, derived from the left law.
proof fn lemma_distrib_right<C: Coef>(a: C, b: C, c: C)
    ensures
        C::times_spec(C::plus_spec(a, b), c) == C::plus_spec(
            C::times_spec(a, c),
            C::times_spec(b, c),
        ),
{
    C::law_times_comm(C::plus_spec(a, b), c);
    C::law_distrib(c, a, b);
    C::law_times_comm(c, a);
    C::law_times_comm(c, b);
}

/// The middle terms of a four-way sum can be exchanged.
proof fn lemma_plus_swap_mid<C: Coef>(a: C, b: C, c: C, d: C)
    ensures
        C::plus_spec(C::plus_spec(a, b), C::plus_spec(c, d)) == C::plus_spec(
            C::plus_spec(a, c),
            C::plus_spec(b, d),
        ),
{
    C::law_plus_assoc(a, b, C::plus_spec(c, d));
    C::law_plus_assoc(b, c, d);
    C::law_plus_comm(b, c);
    C::law_plus_assoc(c, b, d);
    C::law_plus_assoc(a, c, C::plus_spec(b, d));
}

/// A prefix of the convolution sum whose `b`-indices all lie past the end of
/// `b` is zero.
proof fn lemma_conv_prefix_zero<C: Coef>(a: Seq<C>, b: Seq<C>, i: int, hi: int)
    requires
        hi <= i + 1 - b.len(),
    ensures
        conv_partial(a, b, i, hi) == C::zero_spec(),
    decreases (if hi >= 0 { hi } else { 0 }),
{
    if hi > 0 {
        lemma_conv_prefix_zero(a, b, i, hi - 1);
        assert(at_or_zero(b, i - (hi - 1)) == C::zero_spec());
        C::law_times_zero(at_or_zero(a, hi - 1));
        C::law_plus_zero(C::zero_spec());
    }
}

/// Extending the convolution sum with terms whose `a`-indices lie past the
/// end of `a` changes nothing.
proof fn lemma_conv_suffix_fixed<C: Coef>(a: Seq<C>, b: Seq<C>, i: int, lo: int, hi: int)
    requires
        lo >= a.len(),
        lo <= hi,
    ensures
        conv_partial(a, b, i, hi) == conv_partial(a, b, i, lo),
    decreases hi - lo,
{
    if hi > lo {
        lemma_conv_suffix_fixed(a, b, i, lo, hi - 1);
        assert(at_or_zero(a, hi - 1) == C::zero_spec());
        lemma_times_zero_left::<C>(at_or_zero(b, i - (hi - 1)));
        C::law_plus_zero(conv_partial(a, b, i, hi - 1));
    }
}

/// Reading the product sequence anywhere, out-of-range positions included,
/// gives the convolution coefficient.
proof fn lemma_at_poly_times<C: Coef>(a: Seq<C>, b: Seq<C>, m: int)
    requires
        a.len() >= 1,
        b.len() >= 1,
    ensures
        at_or_zero(poly_times(a, b), m) == conv_at(a, b, m),
{
    if m < 0 {
    } else if m < a.len() + b.len() - 1 {
        assert(poly_times(a, b)[m] == conv_at(a, b, m));
    } else {
        lemma_conv_prefix_zero(a, b, m, m + 1 - b.len());
        lemma_conv_suffix_fixed(a, b, m, m + 1 - b.len(), m + 1);
    }
}

impl<C: Coef> Poly<C> {
    /// Convolution product. The caller must ensure the product of the
    /// leading coefficients is non-zero: the zero polynomial is not
    /// representable.
    pub fn times(self, rhs: Poly<C>) -> (r: Poly<C>)
        requires
            self.wf(),
            rhs.wf(),
            self@.len() + rhs@.len() <= usize::MAX,
            C::times_spec(self@[0], rhs@[0]) != C::zero_spec(),
        ensures
            r@ == poly_times(self@, rhs@),
            r.wf(),
    {
        let la = self.coeffs.len();
        let lb = rhs.coeffs.len();
        let n = la + lb - 1;
        let mut out: Vec<C> = Vec::new();
        let ghost target = poly_times(self@, rhs@);
        for i in 0..n
            invariant
                la == self@.len(),
                lb == rhs@.len(),
                la >= 1,
                lb >= 1,
                la + lb <= usize::MAX,
                n == la + lb - 1,
                target == poly_times(self@, rhs@),
                target.len() == n,
                out@.len() == i,
                forall|j: int| 0 <= j < i ==> out@[j] == target[j],
        {
            let kstart = if i + 1 > lb {
                i + 1 - lb
            } else {
                0
            };
            let kend = if la < i + 1 {
                la
            } else {
                i + 1
            };
            proof {
                if kstart > 0 {
                    lemma_conv_prefix_zero(self@, rhs@, i as int, kstart as int);
                }
            }
            let mut p = C::zero();
            let mut k = kstart;
            while k < kend
                invariant
                    la == self@.len(),
                    lb == rhs@.len(),
                    i < n == la + lb - 1,
                    kstart <= k <= kend,
                    kend == if la < i + 1 {
                        la as int
                    } else {
                        i + 1
                    },
                    kstart == if i + 1 > lb {
                        i + 1 - lb
                    } else {
                        0
                    },
                    p == conv_partial(self@, rhs@, i as int, k as int),
                decreases kend - k,
            {
                proof {
                    assert(at_or_zero(self@, k as int) == self@[k as int]);
                    assert(at_or_zero(rhs@, i - k) == rhs@[i - k]);
                }
                p = C::plus(p, C::times(self.coeffs[k], rhs.coeffs[i - k]));
                k = k + 1;
            }
            proof {
                if kend < i + 1 {
                    lemma_conv_suffix_fixed(self@, rhs@, i as int, kend as int, i + 1);
                }
                assert(p == conv_at(self@, rhs@, i as int));
            }
            out.push(p);
        }
        proof {
            assert(out@ =~= target);
            assert(conv_partial(self@, rhs@, 0, 0) == C::zero_spec());
            assert(at_or_zero(self@, 0) == self@[0]);
            assert(at_or_zero(rhs@, 0) == rhs@[0]);
            assert(conv_partial(self@, rhs@, 0, 1) == C::plus_spec(
                C::zero_spec(),
                C::times_spec(self@[0], rhs@[0]),
            ));
            lemma_plus_zero_left::<C>(C::times_spec(self@[0], rhs@[0]));
        }
        Poly { coeffs: out }
    }
}

/// Polynomial addition is commutative: the two sums agree coefficient by
/// coefficient.
pub proof fn lemma_poly_plus_comm<C: Coef>(a: Seq<C>, b: Seq<C>)
    ensures
        poly_plus(a, b) == poly_plus(b, a),
{
    let l = poly_plus(a, b);
    let r = poly_plus(b, a);
    assert forall|i: int| 0 <= i < l.len() implies l[i] == r[i] by {
        let n = if a.len() >= b.len() {
            a.len() as int
        } else {
            b.len() as int
        };
        C::law_plus_comm(at_or_zero(a, i - (n - a.len())), at_or_zero(b, i - (n - b.len())));
    }
    assert(l =~= r);
}

/// Round-trip idempotence of the reciprocal: for a polynomial whose trailing
/// coefficient is non-zero (in particular, one with no zero coefficients at
/// all), taking the reciprocal twice returns the original coefficients.
pub proof fn lemma_reciprocal_round_trip<C: Coef>(s: Seq<C>)
    requires
        s.len() >= 1,
        s[0] != C::zero_spec(),
        s[s.len() - 1] != C::zero_spec(),
    ensures
        spec_reciprocal(spec_reciprocal(s)) == s,
{
    let r = seq_rev(s);
    assert(r[0] == s[s.len() - 1]);
    assert(trim_lead_zeros(r) == r);
    assert(seq_rev(r) =~= s);
    assert(trim_lead_zeros(seq_rev(r)) == seq_rev(r));
}


/// The partial diagonal row `sum_{x < hi} g(x, m - x)`.
spec fn row_diag_p<C: Coef>(g: spec_fn(int, int) -> C, m: int, hi: int) -> C
    decreases hi,
{
    if hi <= 0 {
        C::zero_spec()
    } else {
        C::plus_spec(row_diag_p(g, m, hi - 1), g(hi - 1, m - (hi - 1)))
    }
}

/// The triangle sum grouped by diagonals: `sum_{m < hi} sum_{x <= m} g(x, m - x)`.
spec fn tri_diag_p<C: Coef>(g: spec_fn(int, int) -> C, hi: int) -> C
    decreases hi,
{
    if hi <= 0 {
        C::zero_spec()
    } else {
        C::plus_spec(tri_diag_p(g, hi - 1), row_diag_p(g, hi - 1, hi))
    }
}

/// The partial straight row `sum_{y < hi} g(x, y)`.
spec fn row_rect_p<C: Coef>(g: spec_fn(int, int) -> C, x: int, hi: int) -> C
    decreases hi,
{
    if hi <= 0 {
        C::zero_spec()
    } else {
        C::plus_spec(row_rect_p(g, x, hi - 1), g(x, hi - 1))
    }
}

/// The triangle sum grouped by first index: `sum_{x < hi} sum_{y <= n - x} g(x, y)`.
spec fn tri_rect_p<C: Coef>(g: spec_fn(int, int) -> C, n: int, hi: int) -> C
    decreases hi,
{
    if hi <= 0 {
        C::zero_spec()
    } else {
        C::plus_spec(tri_rect_p(g, n, hi - 1), row_rect_p(g, hi - 1, n - (hi - 1) + 1))
    }
}

/// Growing the triangle bound from `n - 1` to `n` adds one diagonal.
proof fn lemma_tri_rect_peel<C: Coef>(g: spec_fn(int, int) -> C, n: int, hi: int)
    requires
        0 <= hi <= n,
    ensures
        tri_rect_p(g, n, hi) == C::plus_spec(tri_rect_p(g, n - 1, hi), row_diag_p(g, n, hi)),
    decreases hi,
{
    if hi == 0 {
        C::law_plus_zero(C::zero_spec());
    } else {
        lemma_tri_rect_peel(g, n, hi - 1);
        let t_small = tri_rect_p(g, n - 1, hi - 1);
        let d_small = row_diag_p(g, n, hi - 1);
        let r_small = row_rect_p(g, hi - 1, n - hi + 1);
        let gterm = g(hi - 1, n - hi + 1);
        assert(row_rect_p(g, hi - 1, n - hi + 2) == C::plus_spec(r_small, gterm));
        assert(tri_rect_p(g, n, hi) == C::plus_spec(
            C::plus_spec(t_small, d_small),
            C::plus_spec(r_small, gterm),
        ));
        lemma_plus_swap_mid(t_small, d_small, r_small, gterm);
        assert(tri_rect_p(g, n - 1, hi) == C::plus_spec(t_small, r_small));
        assert(row_diag_p(g, n, hi) == C::plus_spec(d_small, gterm));
    }
}

/// The two groupings of the triangle sum are equal.
proof fn lemma_tri_swap<C: Coef>(g: spec_fn(int, int) -> C, n: int)
    ensures
        tri_diag_p(g, n + 1) == tri_rect_p(g, n, n + 1),
    decreases (if n >= 0 { n + 1 } else { 0 }),
{
    if n >= 0 {
        lemma_tri_swap(g, n - 1);
        lemma_tri_rect_peel(g, n, n);
        assert(row_rect_p(g, n, 0) == C::zero_spec());
        assert(row_rect_p(g, n, 1) == C::plus_spec(C::zero_spec(), g(n, 0)));
        lemma_plus_zero_left::<C>(g(n, 0));
        assert(tri_rect_p(g, n, n + 1) == C::plus_spec(tri_rect_p(g, n, n), g(n, 0)));
        assert(tri_rect_p(g, n, n) == C::plus_spec(tri_rect_p(g, n - 1, n), row_diag_p(g, n, n)));
        C::law_plus_assoc(tri_rect_p(g, n - 1, n), row_diag_p(g, n, n), g(n, 0));
        assert(row_diag_p(g, n, n + 1) == C::plus_spec(row_diag_p(g, n, n), g(n, n - n)));
    }
}

/// A diagonal row of the three-way product is a scaled convolution sum.
proof fn lemma_row_diag_conv<C: Coef>(
    a: Seq<C>,
    b: Seq<C>,
    c: Seq<C>,
    g: spec_fn(int, int) -> C,
    n: int,
    m: int,
    hi: int,
)
    requires
        forall|x: int, y: int|
            #[trigger] g(x, y) == C::times_spec(
                C::times_spec(at_or_zero(a, x), at_or_zero(b, y)),
                at_or_zero(c, n - x - y),
            ),
    ensures
        row_diag_p(g, m, hi) == C::times_spec(conv_partial(a, b, m, hi), at_or_zero(c, n - m)),
    decreases (if hi >= 0 { hi } else { 0 }),
{
    if hi <= 0 {
        lemma_times_zero_left::<C>(at_or_zero(c, n - m));
    } else {
        lemma_row_diag_conv(a, b, c, g, n, m, hi - 1);
        let t = C::times_spec(at_or_zero(a, hi - 1), at_or_zero(b, m - (hi - 1)));
        assert(g(hi - 1, m - (hi - 1)) == C::times_spec(t, at_or_zero(c, n - m)));
        lemma_distrib_right(conv_partial(a, b, m, hi - 1), t, at_or_zero(c, n - m));
    }
}

/// The coefficient of `(a * b) * c` as a diagonal triangle sum.
proof fn lemma_conv_left_tri<C: Coef>(
    a: Seq<C>,
    b: Seq<C>,
    c: Seq<C>,
    g: spec_fn(int, int) -> C,
    n: int,
    hi: int,
)
    requires
        a.len() >= 1,
        b.len() >= 1,
        forall|x: int, y: int|
            #[trigger] g(x, y) == C::times_spec(
                C::times_spec(at_or_zero(a, x), at_or_zero(b, y)),
                at_or_zero(c, n - x - y),
            ),
    ensures
        conv_partial(poly_times(a, b), c, n, hi) == tri_diag_p(g, hi),
    decreases (if hi >= 0 { hi } else { 0 }),
{
    if hi > 0 {
        lemma_conv_left_tri(a, b, c, g, n, hi - 1);
        lemma_at_poly_times(a, b, hi - 1);
        lemma_row_diag_conv(a, b, c, g, n, hi - 1, hi);
    }
}

/// A straight row of the three-way product is one term times a convolution
/// sum.
proof fn lemma_row_rect_conv<C: Coef>(
    a: Seq<C>,
    b: Seq<C>,
    c: Seq<C>,
    g: spec_fn(int, int) -> C,
    n: int,
    x: int,
    hi: int,
)
    requires
        forall|u: int, y: int|
            #[trigger] g(u, y) == C::times_spec(
                C::times_spec(at_or_zero(a, u), at_or_zero(b, y)),
                at_or_zero(c, n - u - y),
            ),
    ensures
        row_rect_p(g, x, hi) == C::times_spec(at_or_zero(a, x), conv_partial(b, c, n - x, hi)),
    decreases (if hi >= 0 { hi } else { 0 }),
{
    let av = at_or_zero(a, x);
    if hi <= 0 {
        C::law_times_zero(av);
    } else {
        lemma_row_rect_conv(a, b, c, g, n, x, hi - 1);
        let bv = at_or_zero(b, hi - 1);
        let cv = at_or_zero(c, (n - x) - (hi - 1));
        assert(g(x, hi - 1) == C::times_spec(C::times_spec(av, bv), cv));
        C::law_distrib(av, conv_partial(b, c, n - x, hi - 1), C::times_spec(bv, cv));
        C::law_times_assoc(av, bv, cv);
    }
}

/// The coefficient of `a * (b * c)` as a rectangular triangle sum.
proof fn lemma_conv_right_tri<C: Coef>(
    a: Seq<C>,
    b: Seq<C>,
    c: Seq<C>,
    g: spec_fn(int, int) -> C,
    n: int,
    hi: int,
)
    requires
        b.len() >= 1,
        c.len() >= 1,
        forall|x: int, y: int|
            #[trigger] g(x, y) == C::times_spec(
                C::times_spec(at_or_zero(a, x), at_or_zero(b, y)),
                at_or_zero(c, n - x - y),
            ),
    ensures
        conv_partial(a, poly_times(b, c), n, hi) == tri_rect_p(g, n, hi),
    decreases (if hi >= 0 { hi } else { 0 }),
{
    if hi > 0 {
        lemma_conv_right_tri(a, b, c, g, n, hi - 1);
        lemma_at_poly_times(b, c, n - (hi - 1));
        lemma_row_rect_conv(a, b, c, g, n, hi - 1, n - (hi - 1) + 1);
    }
}

/// Polynomial multiplication is associative: the two products agree
/// coefficient by coefficient.
pub proof fn lemma_poly_times_assoc<C: Coef>(a: Seq<C>, b: Seq<C>, c: Seq<C>)
    requires
        a.len() >= 1,
        b.len() >= 1,
        c.len() >= 1,
    ensures
        poly_times(poly_times(a, b), c) == poly_times(a, poly_times(b, c)),
{
    let lhs = poly_times(poly_times(a, b), c);
    let rhs = poly_times(a, poly_times(b, c));
    assert(lhs.len() == a.len() + b.len() + c.len() - 2);
    assert(rhs.len() == a.len() + b.len() + c.len() - 2);
    assert forall|n: int| 0 <= n < lhs.len() implies lhs[n] == rhs[n] by {
        let g = |x: int, y: int|
            C::times_spec(
                C::times_spec(at_or_zero(a, x), at_or_zero(b, y)),
                at_or_zero(c, n - x - y),
            );
        lemma_conv_left_tri(a, b, c, g, n, n + 1);
        lemma_tri_swap(g, n);
        lemma_conv_right_tri(a, b, c, g, n, n + 1);
    }
    assert(lhs =~= rhs);
}


} // verus!
