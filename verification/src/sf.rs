//! Rational transfer functions over the coefficient ring, their composition
//! by series and feedback, and their realization as a runnable recursive
//! (IIR) filter machine.

use crate::coef::Coef;
use crate::poly::{at_or_zero, poly_minus, poly_plus, poly_times, seq_rev, Poly};
use crate::sm::StateMachine;
use vstd::prelude::*;

verus! {

/// A discrete transfer function: a pair of polynomials, numerator over
/// denominator, both with non-zero leading coefficient.
pub struct SystemFunction<C: Coef> {
    numerator: Poly<C>,
    denominator: Poly<C>,
}

impl<C: Coef> SystemFunction<C> {
    /// The numerator's coefficients, highest degree first.
    pub closed spec fn num(&self) -> Seq<C> {
        self.numerator@
    }

    /// The denominator's coefficients, highest degree first.
    pub closed spec fn den(&self) -> Seq<C> {
        self.denominator@
    }

    /// Both polynomials are non-empty with non-zero leading coefficient.
    pub open spec fn wf(&self) -> bool {
        &&& self.num().len() >= 1
        &&& self.num()[0] != C::zero_spec()
        &&& self.den().len() >= 1
        &&& self.den()[0] != C::zero_spec()
    }

    pub fn new(numerator: Poly<C>, denominator: Poly<C>) -> (r: Self)
        requires
            numerator.wf(),
            denominator.wf(),
        ensures
            r.num() == numerator@,
            r.den() == denominator@,
            r.wf(),
    {
        SystemFunction { numerator, denominator }
    }

    /// Series composition: numerator times numerator, denominator times
    /// denominator.
    pub fn cascade(self, other: SystemFunction<C>) -> (r: SystemFunction<C>)
        requires
            self.wf(),
            other.wf(),
            self.num().len() + other.num().len() <= usize::MAX,
            self.den().len() + other.den().len() <= usize::MAX,
            C::times_spec(self.num()[0], other.num()[0]) != C::zero_spec(),
            C::times_spec(self.den()[0], other.den()[0]) != C::zero_spec(),
        ensures
            r.num() == poly_times(self.num(), other.num()),
            r.den() == poly_times(self.den(), other.den()),
            r.wf(),
    {
        SystemFunction {
            numerator: self.numerator.times(other.numerator),
            denominator: self.denominator.times(other.denominator),
        }
    }

    /// The numerator of the unity-gain default: `1`.
    pub open spec fn opt_num(other: Option<SystemFunction<C>>) -> Seq<C> {
        match other {
            Option::Some(sf) => sf.num(),
            Option::None => seq![C::one_spec()],
        }
    }

    /// The denominator of the unity-gain default: `1`.
    pub open spec fn opt_den(other: Option<SystemFunction<C>>) -> Seq<C> {
        match other {
            Option::Some(sf) => sf.den(),
            Option::None => seq![C::one_spec()],
        }
    }

    /// Negative feedback around `self` through `other` (unity gain when
    /// `other` is `None`): the new numerator is `n1 * d2` and the new
    /// denominator is `d1 * d2 + n1 * n2`.
    pub fn feedback_sub(self, other: Option<SystemFunction<C>>) -> (r: SystemFunction<C>)
        requires
            self.wf(),
            other is Some ==> other.unwrap().wf(),
            self.num().len() + Self::opt_den(other).len() <= usize::MAX,
            self.den().len() + Self::opt_den(other).len() <= usize::MAX,
            self.num().len() + Self::opt_num(other).len() <= usize::MAX,
            C::times_spec(self.num()[0], Self::opt_den(other)[0]) != C::zero_spec(),
            C::times_spec(self.den()[0], Self::opt_den(other)[0]) != C::zero_spec(),
            C::times_spec(self.num()[0], Self::opt_num(other)[0]) != C::zero_spec(),
            ({
                let dd = poly_times(self.den(), Self::opt_den(other));
                let nn = poly_times(self.num(), Self::opt_num(other));
                dd.len() == nn.len() ==> C::plus_spec(dd[0], nn[0]) != C::zero_spec()
            }),
        ensures
            r.num() == poly_times(self.num(), Self::opt_den(other)),
            r.den() == poly_plus(
                poly_times(self.den(), Self::opt_den(other)),
                poly_times(self.num(), Self::opt_num(other)),
            ),
            r.wf(),
    {
        let (n2, d2) = match other {
            Some(sf) => (sf.numerator, sf.denominator),
            None => (Poly::<C>::one(), Poly::<C>::one()),
        };
        let n1 = self.numerator;
        let d1 = self.denominator;
        let ghost n1v = n1@;
        let ghost d1v = d1@;
        let n1_for_den = n1.duplicate();
        let numerator = n1.times(d2.duplicate());
        let denominator = d1.times(d2).plus(n1_for_den.times(n2));
        SystemFunction { numerator, denominator }
    }

    /// Positive feedback around `self` through `other` (unity gain when
    /// `other` is `None`): the new numerator is `n1 * d2` and the new
    /// denominator is `d1 * d2 - n1 * n2`.
    pub fn feedback_add(self, other: Option<SystemFunction<C>>) -> (r: SystemFunction<C>)
        requires
            self.wf(),
            other is Some ==> other.unwrap().wf(),
            self.num().len() + Self::opt_den(other).len() <= usize::MAX,
            self.den().len() + Self::opt_den(other).len() <= usize::MAX,
            self.num().len() + Self::opt_num(other).len() <= usize::MAX,
            C::times_spec(self.num()[0], Self::opt_den(other)[0]) != C::zero_spec(),
            C::times_spec(self.den()[0], Self::opt_den(other)[0]) != C::zero_spec(),
            C::times_spec(self.num()[0], Self::opt_num(other)[0]) != C::zero_spec(),
            ({
                let dd = poly_times(self.den(), Self::opt_den(other));
                let nn = poly_times(self.num(), Self::opt_num(other));
                dd.len() == nn.len() ==> C::minus_spec(dd[0], nn[0]) != C::zero_spec()
            }),
        ensures
            r.num() == poly_times(self.num(), Self::opt_den(other)),
            r.den() == poly_minus(
                poly_times(self.den(), Self::opt_den(other)),
                poly_times(self.num(), Self::opt_num(other)),
            ),
            r.wf(),
    {
        let (n2, d2) = match other {
            Some(sf) => (sf.numerator, sf.denominator),
            None => (Poly::<C>::one(), Poly::<C>::one()),
        };
        let n1 = self.numerator;
        let d1 = self.denominator;
        let n1_for_den = n1.duplicate();
        let numerator = n1.times(d2.duplicate());
        let denominator = d1.times(d2).minus(n1_for_den.times(n2));
        SystemFunction { numerator, denominator }
    }

    /// The denominator's reciprocal polynomial, whose roots are the system
    /// poles; numeric root extraction is left to the caller.
    pub fn den_reciprocal(&self) -> (r: Poly<C>)
        requires
            self.wf(),
        ensures
            r@ == crate::poly::spec_reciprocal(self.den()),
            r.wf(),
    {
        self.denominator.reciprocal()
    }

    /// The numerator's coefficients as a vector, highest degree first.
    pub fn num_coeffs(&self) -> (r: Vec<C>)
        ensures
            r@ == self.num(),
    {
        self.numerator.duplicate().coeffs()
    }

    /// The denominator's coefficients as a vector, highest degree first.
    pub fn den_coeffs(&self) -> (r: Vec<C>)
        ensures
            r@ == self.den(),
    {
        self.denominator.duplicate().coeffs()
    }

    /// Converts the transfer function into a runnable direct-form recursive
    /// filter: the feedback taps are the denominator coefficients past the
    /// leading one, reversed and negated; the feedforward taps are the
    /// numerator coefficients reversed. Optional initial histories (oldest
    /// value first) seed transient behaviour and are truncated or zero-padded
    /// to the tap counts; otherwise the histories start at zero.
    pub fn into_sm(self, prev_inputs: Option<Vec<C>>, prev_outputs: Option<Vec<C>>) -> (r: Ltsim<
        C,
    >)
        requires
            self.wf(),
        ensures
            r.cs() == Seq::new(
                (self.den().len() - 1) as nat,
                |i: int| C::neg_spec(self.den()[self.den().len() - 1 - i]),
            ),
            r.ds() == seq_rev(self.num()),
            list_view(r.in_hist()) == Seq::new(
                self.num().len(),
                |i: int| hist_seed(prev_inputs, i),
            ),
            list_view(r.out_hist()) == Seq::new(
                (self.den().len() - 1) as nat,
                |i: int| hist_seed(prev_outputs, i),
            ),
            r.wf(),
    {
        let den = self.denominator.coeffs();
        let num = self.numerator.coeffs();
        let dlen = den.len();
        let nlen = num.len();
        let mut cs: Vec<C> = Vec::new();
        let ghost cs_target = Seq::new(
            (dlen - 1) as nat,
            |i: int| C::neg_spec(den@[dlen - 1 - i]),
        );
        for i in 0..dlen - 1
            invariant
                dlen == den@.len(),
                dlen >= 1,
                cs_target == Seq::new(
                    (dlen - 1) as nat,
                    |i: int| C::neg_spec(den@[dlen - 1 - i]),
                ),
                cs_target.len() == dlen - 1,
                cs@.len() == i,
                forall|j: int| 0 <= j < i ==> cs@[j] == cs_target[j],
        {
            proof {
                assert(cs_target[i as int] == C::neg_spec(den@[dlen - 1 - i]));
            }
            cs.push(C::neg(den[dlen - 1 - i]));
        }
        let mut ds: Vec<C> = Vec::new();
        for i in 0..nlen
            invariant
                nlen == num@.len(),
                ds@.len() == i,
                forall|j: int| 0 <= j < i ==> ds@[j] == num@[nlen - 1 - j],
        {
            ds.push(num[nlen - 1 - i]);
        }
        proof {
            assert(cs@ =~= cs_target);
            assert(ds@ =~= seq_rev(num@));
        }
        let in_hist = build_hist(&prev_inputs, 0, nlen);
        let out_hist = build_hist(&prev_outputs, 0, dlen - 1);
        proof {
            assert(list_view(in_hist) =~= Seq::new(
                nlen as nat,
                |i: int| hist_seed(prev_inputs, i),
            ));
            assert(list_view(out_hist) =~= Seq::new(
                (dlen - 1) as nat,
                |i: int| hist_seed(prev_outputs, i),
            ));
        }
        Ltsim { c_coeffs: cs, d_coeffs: ds, prev_inputs: in_hist, prev_outputs: out_hist }
    }
}

/// A transfer function that scales its input by `k`.
pub fn gain<C: Coef>(k: C) -> (r: SystemFunction<C>)
    requires
        k != C::zero_spec(),
    ensures
        r.num() == seq![k],
        r.den() == seq![C::one_spec()],
        r.wf(),
{
    let mut coeffs: Vec<C> = Vec::new();
    coeffs.push(k);
    proof {
        assert(coeffs@ =~= seq![k]);
        C::law_one_nonzero();
    }
    SystemFunction { numerator: Poly::new(coeffs), denominator: Poly::<C>::one() }
}

/// A transfer function that delays its input by one tick.
pub fn delay<C: Coef>() -> (r: SystemFunction<C>)
    ensures
        r.num() == seq![C::one_spec(), C::zero_spec()],
        r.den() == seq![C::one_spec()],
        r.wf(),
{
    let mut coeffs: Vec<C> = Vec::new();
    coeffs.push(C::one());
    coeffs.push(C::zero());
    proof {
        assert(coeffs@ =~= seq![C::one_spec(), C::zero_spec()]);
        C::law_one_nonzero();
    }
    SystemFunction { numerator: Poly::new(coeffs), denominator: Poly::<C>::one() }
}

/// Duplicates a coefficient vector.
fn clone_vec<C: Coef>(v: &Vec<C>) -> (r: Vec<C>)
    ensures
        r@ == v@,
{
    let mut out: Vec<C> = Vec::new();
    for i in 0..v.len()
        invariant
            out@.len() == i,
            forall|j: int| 0 <= j < i ==> out@[j] == v@[j],
    {
        out.push(v[i]);
    }
    proof {
        assert(out@ =~= v@);
    }
    out
}

/// A history of past values, oldest first.
pub enum CoefList<C> {
    Nil,
    Cons(C, Box<CoefList<C>>),
}

/// The sequence of values a history holds, oldest first.
pub open spec fn list_view<C>(l: CoefList<C>) -> Seq<C>
    decreases l,
{
    match l {
        CoefList::Nil => Seq::empty(),
        CoefList::Cons(v, rest) => seq![v] + list_view(*rest),
    }
}

/// The seed value of a history at position `i`: the caller's value when one
/// was supplied there, zero otherwise.
pub open spec fn hist_seed<C: Coef>(seed: Option<Vec<C>>, i: int) -> C {
    match seed {
        Option::Some(v) => at_or_zero(v@, i),
        Option::None => C::zero_spec(),
    }
}

/// Builds the history positions `i..len` from an optional seed vector.
fn build_hist<C: Coef>(seed: &Option<Vec<C>>, i: usize, len: usize) -> (r: CoefList<C>)
    ensures
        list_view(r) == Seq::new((if i <= len {
            (len - i) as nat
        } else {
            0nat
        }), |j: int| hist_seed(*seed, i + j)),
    decreases len - i,
{
    if i >= len {
        proof {
            assert(list_view(CoefList::<C>::Nil) =~= Seq::new(
                0nat,
                |j: int| hist_seed(*seed, i + j),
            ));
        }
        CoefList::Nil
    } else {
        let head = match seed {
            Some(v) => {
                if i < v.len() {
                    v[i]
                } else {
                    C::zero()
                }
            },
            None => C::zero(),
        };
        let rest = build_hist(seed, i + 1, len);
        proof {
            assert(seq![head] + list_view(rest) =~= Seq::new(
                (len - i) as nat,
                |j: int| hist_seed(*seed, i + j),
            ));
        }
        CoefList::Cons(head, Box::new(rest))
    }
}

/// Duplicates a history value.
fn clone_list<C: Coef>(l: &CoefList<C>) -> (r: CoefList<C>)
    ensures
        r == *l,
    decreases l,
{
    match l {
        CoefList::Nil => CoefList::Nil,
        CoefList::Cons(v, rest) => CoefList::Cons(*v, Box::new(clone_list(rest))),
    }
}

/// Appends `v` at the newest end of a history and drops the oldest value;
/// an empty history stays empty.
pub open spec fn shift_in<C>(l: CoefList<C>, v: C) -> CoefList<C> {
    match l {
        CoefList::Nil => CoefList::Nil,
        CoefList::Cons(_, rest) => snoc(*rest, v),
    }
}

/// Appends `v` at the end of a history.
pub open spec fn snoc<C>(l: CoefList<C>, v: C) -> CoefList<C>
    decreases l,
{
    match l {
        CoefList::Nil => CoefList::Cons(v, Box::new(CoefList::Nil)),
        CoefList::Cons(h, rest) => CoefList::Cons(h, Box::new(snoc(*rest, v))),
    }
}

fn snoc_exec<C: Coef>(l: &CoefList<C>, v: C) -> (r: CoefList<C>)
    ensures
        r == snoc(*l, v),
    decreases l,
{
    match l {
        CoefList::Nil => CoefList::Cons(v, Box::new(CoefList::Nil)),
        CoefList::Cons(h, rest) => CoefList::Cons(*h, Box::new(snoc_exec(rest, v))),
    }
}

fn shift_in_exec<C: Coef>(l: &CoefList<C>, v: C) -> (r: CoefList<C>)
    ensures
        r == shift_in(*l, v),
{
    match l {
        CoefList::Nil => CoefList::Nil,
        CoefList::Cons(_, rest) => snoc_exec(rest, v),
    }
}

/// The dot product of two sequences, paired from the front, over the shorter
/// length.
pub open spec fn dot_seq<C: Coef>(a: Seq<C>, b: Seq<C>) -> C
    decreases a.len(),
{
    if a.len() == 0 || b.len() == 0 {
        C::zero_spec()
    } else {
        C::plus_spec(C::times_spec(a[0], b[0]), dot_seq(a.drop_first(), b.drop_first()))
    }
}

fn dot_list_vec<C: Coef>(l: &CoefList<C>, v: &Vec<C>, i: usize) -> (r: C)
    requires
        i <= v@.len(),
    ensures
        r == dot_seq(list_view(*l), v@.skip(i as int)),
    decreases l,
{
    match l {
        CoefList::Nil => C::zero(),
        CoefList::Cons(x, rest) => {
            if i < v.len() {
                let tail = dot_list_vec(rest, v, i + 1);
                proof {
                    let lv = list_view(*l);
                    assert(lv == seq![*x] + list_view(**rest));
                    assert(lv[0] == *x);
                    assert(lv.drop_first() =~= list_view(**rest));
                    assert(v@.skip(i as int)[0] == v@[i as int]);
                    assert(v@.skip(i as int).drop_first() =~= v@.skip(i as int + 1));
                }
                C::plus(C::times(*x, v[i]), tail)
            } else {
                proof {
                    assert(v@.skip(i as int).len() == 0);
                }
                C::zero()
            }
        },
    }
}

/// A direct-form recursive (IIR) filter as a state machine: the state is the
/// pair of input and output histories (oldest first); each tick shifts the
/// input into the input history, forms the output as the dot product of the
/// output history with the feedback taps plus the dot product of the updated
/// input history with the feedforward taps, and shifts the output into the
/// output history. A tick without an input leaves the state unchanged and
/// produces no output.
pub struct Ltsim<C: Coef> {
    c_coeffs: Vec<C>,
    d_coeffs: Vec<C>,
    prev_inputs: CoefList<C>,
    prev_outputs: CoefList<C>,
}

impl<C: Coef> Ltsim<C> {
    /// The feedback taps, oldest-pairing first.
    pub closed spec fn cs(&self) -> Seq<C> {
        self.c_coeffs@
    }

    /// The feedforward taps, oldest-pairing first.
    pub closed spec fn ds(&self) -> Seq<C> {
        self.d_coeffs@
    }

    /// The seeded input history.
    pub closed spec fn in_hist(&self) -> CoefList<C> {
        self.prev_inputs
    }

    /// The seeded output history.
    pub closed spec fn out_hist(&self) -> CoefList<C> {
        self.prev_outputs
    }

    /// The histories match the tap counts.
    pub open spec fn wf(&self) -> bool {
        &&& list_view(self.in_hist()).len() == self.ds().len()
        &&& list_view(self.out_hist()).len() == self.cs().len()
    }

    /// The feedback taps as a vector.
    pub fn feedback_taps(&self) -> (r: Vec<C>)
        ensures
            r@ == self.cs(),
    {
        clone_vec(&self.c_coeffs)
    }

    /// The feedforward taps as a vector.
    pub fn feedforward_taps(&self) -> (r: Vec<C>)
        ensures
            r@ == self.ds(),
    {
        clone_vec(&self.d_coeffs)
    }
}

impl<C: Coef> StateMachine<C, C> for Ltsim<C> {
    type State = (CoefList<C>, CoefList<C>);

    open spec fn spec_start(&self) -> Self::State {
        (self.in_hist(), self.out_hist())
    }

    open spec fn spec_next(&self, state: Self::State, input: Option<C>) -> (Self::State, Option<C>) {
        match input {
            Option::None => (state, Option::None),
            Option::Some(x) => {
                let new_inputs = shift_in(state.0, x);
                let y = C::plus_spec(
                    dot_seq(list_view(state.1), self.cs()),
                    dot_seq(list_view(new_inputs), self.ds()),
                );
                ((new_inputs, shift_in(state.1, y)), Option::Some(y))
            },
        }
    }

    open spec fn spec_done(&self, state: Self::State) -> bool {
        false
    }

    fn start_state(&self) -> (s: Self::State) {
        (clone_list(&self.prev_inputs), clone_list(&self.prev_outputs))
    }

    fn next_values(&self, state: &Self::State, input: Option<C>) -> (r: (Self::State, Option<C>)) {
        match input {
            None => ((clone_list(&state.0), clone_list(&state.1)), None),
            Some(x) => {
                let new_inputs = shift_in_exec(&state.0, x);
                let acc_out = dot_list_vec(&state.1, &self.c_coeffs, 0);
                let acc_in = dot_list_vec(&new_inputs, &self.d_coeffs, 0);
                let y = C::plus(acc_out, acc_in);
                proof {
                    assert(self.c_coeffs@.skip(0) =~= self.cs());
                    assert(self.d_coeffs@.skip(0) =~= self.ds());
                }
                let new_outputs = shift_in_exec(&state.1, y);
                ((new_inputs, new_outputs), Some(y))
            },
        }
    }

    fn done(&self, state: &Self::State) -> (b: bool) {
        false
    }

    fn clone_state(&self, state: &Self::State) -> (r: Self::State) {
        (clone_list(&state.0), clone_list(&state.1))
    }
}

} // verus!
