//! Time-indexed signals: a capability for producing a value at an arbitrary
//! integer tick index. Sampling may memoize internally, but the value at
//! every index is pinned by a spec function that sampling never changes: a
//! signal answers the same value for an index no matter in what order, or
//! how often, indices are queried.

use crate::coef::Coef;
use crate::sm::StateMachine;
use core::marker::PhantomData;
use vstd::prelude::*;

verus! {

/// A time-indexed signal. `at` gives the value at every index; `idx_ok`
/// says at which indices sampling is allowed; `inv` is the signal's own
/// well-formedness. Sampling returns exactly `at(n)` and leaves `at` and
/// `idx_ok` unchanged at every index, whatever internal memoization it does.
pub trait Signal: Sized {
    type Out;

    /// Well-formedness of the signal value.
    spec fn inv(&self) -> bool;

    /// Whether sampling at index `n` is allowed.
    spec fn idx_ok(&self, n: int) -> bool;

    /// The value of the signal at index `n`.
    spec fn at(&self, n: int) -> Self::Out;

    fn sample(&mut self, n: i32) -> (r: Self::Out)
        requires
            old(self).inv(),
            old(self).idx_ok(n as int),
        ensures
            final(self).inv(),
            r == old(self).at(n as int),
            forall|m: int| final(self).at(m) == old(self).at(m),
            forall|m: int| final(self).idx_ok(m) == old(self).idx_ok(m),
    ;
}

/// The unit impulse: one at index zero, zero everywhere else.
pub struct UnitSignal<C: Coef> {
    pub _phantom: PhantomData<C>,
}

/// The unit impulse signal (see [`UnitSignal`]).
pub fn unit<C: Coef>() -> (r: UnitSignal<C>)
    ensures
        r.inv(),
{
    UnitSignal { _phantom: PhantomData }
}

impl<C: Coef> Signal for UnitSignal<C> {
    type Out = C;

    open spec fn inv(&self) -> bool {
        true
    }

    open spec fn idx_ok(&self, n: int) -> bool {
        true
    }

    open spec fn at(&self, n: int) -> C {
        if n == 0 {
            C::one_spec()
        } else {
            C::zero_spec()
        }
    }

    fn sample(&mut self, n: i32) -> (r: C) {
        if n == 0 {
            C::one()
        } else {
            C::zero()
        }
    }
}

/// A constant signal: the same value at every index.
pub struct ConstSignal<T: Copy> {
    pub val: T,
}

/// A constant signal (see [`ConstSignal`]).
pub fn constant<T: Copy>(val: T) -> (r: ConstSignal<T>)
    ensures
        r.val == val,
        r.inv(),
{
    ConstSignal { val }
}

impl<T: Copy> Signal for ConstSignal<T> {
    type Out = T;

    open spec fn inv(&self) -> bool {
        true
    }

    open spec fn idx_ok(&self, n: int) -> bool {
        true
    }

    open spec fn at(&self, n: int) -> T {
        self.val
    }

    fn sample(&mut self, n: i32) -> (r: T) {
        self.val
    }
}

/// Scales an inner signal by a fixed gain.
#[verifier::reject_recursive_types(C)]
pub struct ScaleSignal<C: Coef, S: Signal<Out = C>> {
    pub gain: C,
    pub inner: S,
}

impl<C: Coef, S: Signal<Out = C>> ScaleSignal<C, S> {
    pub fn new(inner: S, gain: C) -> (r: Self)
        ensures
            r.gain == gain,
            r.inner == inner,
    {
        ScaleSignal { gain, inner }
    }
}

impl<C: Coef, S: Signal<Out = C>> Signal for ScaleSignal<C, S> {
    type Out = C;

    open spec fn inv(&self) -> bool {
        self.inner.inv()
    }

    open spec fn idx_ok(&self, n: int) -> bool {
        self.inner.idx_ok(n)
    }

    open spec fn at(&self, n: int) -> C {
        C::times_spec(self.gain, self.inner.at(n))
    }

    fn sample(&mut self, n: i32) -> (r: C) {
        let v = self.inner.sample(n);
        C::times(self.gain, v)
    }
}

/// Reads the inner signal a fixed number of ticks in the past.
pub struct DelaySignal<S: Signal> {
    pub shift: usize,
    pub inner: S,
}

impl<S: Signal> DelaySignal<S> {
    pub fn new(inner: S, shift: usize) -> (r: Self)
        ensures
            r.shift == shift,
            r.inner == inner,
    {
        DelaySignal { shift, inner }
    }
}

impl<S: Signal> Signal for DelaySignal<S> {
    type Out = S::Out;

    open spec fn inv(&self) -> bool {
        self.inner.inv() && self.shift <= i32::MAX
    }

    open spec fn idx_ok(&self, n: int) -> bool {
        n - self.shift >= i32::MIN && self.inner.idx_ok(n - self.shift)
    }

    open spec fn at(&self, n: int) -> S::Out {
        self.inner.at(n - self.shift)
    }

    fn sample(&mut self, n: i32) -> (r: S::Out) {
        self.inner.sample(n - (self.shift as i32))
    }
}

/// Adds two signals index by index.
#[verifier::reject_recursive_types(C)]
pub struct AddSignal<C: Coef, S1: Signal<Out = C>, S2: Signal<Out = C>> {
    pub first: S1,
    pub second: S2,
}

impl<C: Coef, S1: Signal<Out = C>, S2: Signal<Out = C>> AddSignal<C, S1, S2> {
    pub fn new(first: S1, second: S2) -> (r: Self)
        ensures
            r.first == first,
            r.second == second,
    {
        AddSignal { first, second }
    }
}

impl<C: Coef, S1: Signal<Out = C>, S2: Signal<Out = C>> Signal for AddSignal<C, S1, S2> {
    type Out = C;

    open spec fn inv(&self) -> bool {
        self.first.inv() && self.second.inv()
    }

    open spec fn idx_ok(&self, n: int) -> bool {
        self.first.idx_ok(n) && self.second.idx_ok(n)
    }

    open spec fn at(&self, n: int) -> C {
        C::plus_spec(self.first.at(n), self.second.at(n))
    }

    fn sample(&mut self, n: i32) -> (r: C) {
        let a = self.first.sample(n);
        let b = self.second.sample(n);
        proof {
            assert(self.first.at(n as int) == old(self).first.at(n as int));
        }
        C::plus(a, b)
    }
}


/// A finite-impulse-response combination: a weighted sum of delayed samples
/// of an inner signal.
#[verifier::reject_recursive_types(C)]
pub struct FirSignal<C: Coef, S: Signal<Out = C>> {
    pub coefs: Vec<C>,
    pub inner: S,
}

impl<C: Coef, S: Signal<Out = C>> FirSignal<C, S> {
    pub fn new(inner: S, coefs: Vec<C>) -> (r: Self)
        ensures
            r.coefs == coefs,
            r.inner == inner,
    {
        FirSignal { coefs, inner }
    }

    /// The partial weighted sum over taps `0 .. hi`.
    pub open spec fn fir_partial(&self, n: int, hi: int) -> C
        decreases (if hi >= 0 { hi } else { 0 }),
    {
        if hi <= 0 {
            C::zero_spec()
        } else {
            C::plus_spec(
                self.fir_partial(n, hi - 1),
                C::times_spec(self.inner.at(n - (hi - 1)), self.coefs@[hi - 1]),
            )
        }
    }

    /// The inner signal can be sampled at every tap position `0 .. hi`
    /// behind `n`.
    pub open spec fn taps_ok(&self, n: int, hi: int) -> bool
        decreases (if hi >= 0 { hi } else { 0 }),
    {
        if hi <= 0 {
            true
        } else {
            &&& self.taps_ok(n, hi - 1)
            &&& n - (hi - 1) >= i32::MIN
            &&& self.inner.idx_ok(n - (hi - 1))
        }
    }

    fn sample_impl(&mut self, n: i32) -> (r: C)
        requires
            old(self).inv(),
            old(self).idx_ok(n as int),
        ensures
            final(self).inv(),
            r == old(self).at(n as int),
            forall|m: int| final(self).at(m) == old(self).at(m),
            forall|m: int| final(self).idx_ok(m) == old(self).idx_ok(m),
    {
        let ghost orig = *old(self);
        let len = self.coefs.len();
        let mut acc = C::zero();
        let mut deg: usize = 0;
        while deg < len
            invariant
                0 <= deg <= len,
                len == self.coefs@.len(),
                len <= i32::MAX,
                self.coefs == orig.coefs,
                self.inner.inv(),
                orig.taps_ok(n as int, len as int),
                forall|m: int| self.inner.at(m) == orig.inner.at(m),
                forall|m: int| self.inner.idx_ok(m) == orig.inner.idx_ok(m),
                acc == orig.fir_partial(n as int, deg as int),
            decreases len - deg,
        {
            let ghost pre = *self;
            proof {
                lemma_taps_ok_extract(orig, n as int, len as int, deg as int);
            }
            let v = self.inner.sample(n - (deg as i32));
            proof {
                lemma_fir_stable(pre, *self, n as int, deg as int);
                lemma_fir_stable(orig, *self, n as int, deg as int);
                assert(v == orig.inner.at(n - deg));
                assert(orig.fir_partial(n as int, deg as int + 1) == C::plus_spec(
                    orig.fir_partial(n as int, deg as int),
                    C::times_spec(orig.inner.at(n - deg), orig.coefs@[deg as int]),
                ));
            }
            acc = C::plus(acc, C::times(v, self.coefs[deg]));
            deg = deg + 1;
        }
        proof {
            assert(acc == orig.at(n as int));
            assert forall|m: int| final(self).at(m) == orig.at(m) by {
                lemma_fir_stable(orig, *self, m, len as int);
            }
            assert forall|m: int| final(self).idx_ok(m) == orig.idx_ok(m) by {
                lemma_taps_ok_stable(orig, *self, m, len as int);
            }
        }
        acc
    }
}

/// Within the checked range, every tap position admits sampling.
proof fn lemma_taps_ok_extract<C: Coef, S: Signal<Out = C>>(
    f: FirSignal<C, S>,
    n: int,
    hi: int,
    d: int,
)
    requires
        f.taps_ok(n, hi),
        0 <= d < hi,
    ensures
        n - d >= i32::MIN,
        f.inner.idx_ok(n - d),
    decreases hi,
{
    if d < hi - 1 {
        lemma_taps_ok_extract(f, n, hi - 1, d);
    }
}

/// The weighted sum is unchanged when the inner signal is replaced by one
/// with the same values everywhere.
proof fn lemma_fir_stable<C: Coef, S: Signal<Out = C>>(
    s1: FirSignal<C, S>,
    s2: FirSignal<C, S>,
    n: int,
    hi: int,
)
    requires
        s1.coefs@ == s2.coefs@,
        forall|m: int| s1.inner.at(m) == s2.inner.at(m),
    ensures
        s1.fir_partial(n, hi) == s2.fir_partial(n, hi),
    decreases (if hi >= 0 { hi } else { 0 }),
{
    if hi > 0 {
        lemma_fir_stable(s1, s2, n, hi - 1);
    }
}

/// The range check is unchanged when the inner signal is replaced by one
/// that admits the same indices everywhere.
proof fn lemma_taps_ok_stable<C: Coef, S: Signal<Out = C>>(
    s1: FirSignal<C, S>,
    s2: FirSignal<C, S>,
    n: int,
    hi: int,
)
    requires
        s1.coefs@ == s2.coefs@,
        forall|m: int| s1.inner.idx_ok(m) == s2.inner.idx_ok(m),
    ensures
        s1.taps_ok(n, hi) == s2.taps_ok(n, hi),
    decreases (if hi >= 0 { hi } else { 0 }),
{
    if hi > 0 {
        lemma_taps_ok_stable(s1, s2, n, hi - 1);
    }
}

impl<C: Coef, S: Signal<Out = C>> Signal for FirSignal<C, S> {
    type Out = C;

    open spec fn inv(&self) -> bool {
        self.inner.inv() && self.coefs@.len() <= i32::MAX
    }

    open spec fn idx_ok(&self, n: int) -> bool {
        self.taps_ok(n, self.coefs@.len() as int)
    }

    open spec fn at(&self, n: int) -> C {
        self.fir_partial(n, self.coefs@.len() as int)
    }

    fn sample(&mut self, n: i32) -> (r: C) {
        self.sample_impl(n)
    }
}

/// Steps a signal forward one index at a time, starting at zero.
pub struct IterSignal<S: Signal> {
    sig: S,
    idx: i32,
}

impl<S: Signal> IterSignal<S> {
    /// The wrapped signal.
    pub closed spec fn s(&self) -> S {
        self.sig
    }

    /// The index the next value will be read from.
    pub closed spec fn pos(&self) -> int {
        self.idx as int
    }

    pub fn new(sig: S) -> (r: Self)
        ensures
            r.s() == sig,
            r.pos() == 0,
    {
        IterSignal { sig, idx: 0 }
    }

    /// Reads the value at the current index and advances by one.
    pub fn next_value(&mut self) -> (r: S::Out)
        requires
            old(self).s().inv(),
            old(self).s().idx_ok(old(self).pos()),
            old(self).pos() < i32::MAX,
        ensures
            final(self).s().inv(),
            r == old(self).s().at(old(self).pos()),
            final(self).pos() == old(self).pos() + 1,
            forall|m: int| final(self).s().at(m) == old(self).s().at(m),
            forall|m: int| final(self).s().idx_ok(m) == old(self).s().idx_ok(m),
    {
        let out = self.sig.sample(self.idx);
        self.idx = self.idx + 1;
        out
    }
}

/// The machine state reached after processing the input signal's values at
/// indices `0 .. n`.
pub open spec fn run_state<In, Out, M: StateMachine<In, Out>, Sg: Signal<Out = In>>(
    m: M,
    sg: Sg,
    n: int,
) -> M::State
    decreases (if n >= 0 { n } else { 0 }),
{
    if n <= 0 {
        m.spec_start()
    } else {
        m.spec_next(run_state(m, sg, n - 1), Option::Some(sg.at(n - 1))).0
    }
}

/// The machine's output at tick `n` when driven by the input signal.
pub open spec fn out_at<In, Out, M: StateMachine<In, Out>, Sg: Signal<Out = In>>(
    m: M,
    sg: Sg,
    n: int,
) -> Option<Out> {
    m.spec_next(run_state(m, sg, n), Option::Some(sg.at(n))).1
}

/// Replacing the input signal by one with the same values everywhere does
/// not change the replayed state.
proof fn lemma_run_state_stable<In, Out, M: StateMachine<In, Out>, Sg: Signal<Out = In>>(
    m: M,
    sg1: Sg,
    sg2: Sg,
    n: int,
)
    requires
        forall|k: int| sg1.at(k) == sg2.at(k),
    ensures
        run_state(m, sg1, n) == run_state(m, sg2, n),
    decreases (if n >= 0 { n } else { 0 }),
{
    if n > 0 {
        lemma_run_state_stable(m, sg1, sg2, n - 1);
    }
}

/// A state machine driven by an input signal, exposed as an output signal.
/// Sampling at index `n` replays the machine over input indices `0 ..= n`;
/// a memoized `(index, state)` pair makes non-decreasing sampling
/// incremental, and any other order rebuilds from the start state. The
/// value produced at an index is the same either way.
#[verifier::reject_recursive_types(In)]
#[verifier::reject_recursive_types(Out)]
pub struct TransducedSignal<In, Out, M: StateMachine<In, Out>, Sg: Signal<Out = In>> {
    machine: M,
    input: Sg,
    last: Option<(i32, <M as StateMachine<In, Out>>::State)>,
    _phantom: PhantomData<Out>,
}

/// Bridges a machine and an input signal into the machine's output signal
/// (see [`TransducedSignal`]).
pub fn transduce_signal<In, Out, M: StateMachine<In, Out>, Sg: Signal<Out = In>>(
    machine: M,
    input_sig: Sg,
) -> (r: TransducedSignal<In, Out, M, Sg>)
    requires
        input_sig.inv(),
    ensures
        r.m() == machine,
        r.in_sig() == input_sig,
        r.inv(),
{
    TransducedSignal { machine, input: input_sig, last: None, _phantom: PhantomData }
}

impl<In, Out, M: StateMachine<In, Out>, Sg: Signal<Out = In>> TransducedSignal<In, Out, M, Sg> {
    /// The machine being replayed.
    pub closed spec fn m(&self) -> M {
        self.machine
    }

    /// The input signal.
    pub closed spec fn in_sig(&self) -> Sg {
        self.input
    }

    /// The memoized index and state.
    pub closed spec fn memo(&self) -> Option<(i32, M::State)> {
        self.last
    }
}

impl<In, Out, M: StateMachine<In, Out>, Sg: Signal<Out = In>> Signal for TransducedSignal<
    In,
    Out,
    M,
    Sg,
> {
    type Out = Out;

    open spec fn inv(&self) -> bool {
        &&& self.in_sig().inv()
        &&& match self.memo() {
            Option::Some(pair) => pair.0 >= 0 && pair.1 == run_state(
                self.m(),
                self.in_sig(),
                pair.0 + 1,
            ),
            Option::None => true,
        }
    }

    open spec fn idx_ok(&self, n: int) -> bool {
        &&& n >= 0
        &&& forall|k: int| 0 <= k <= n ==> self.in_sig().idx_ok(k)
        &&& out_at(self.m(), self.in_sig(), n) is Some
    }

    open spec fn at(&self, n: int) -> Out {
        match out_at(self.m(), self.in_sig(), n) {
            Option::Some(v) => v,
            Option::None => vstd::pervasive::arbitrary::<Out>(),
        }
    }

    fn sample(&mut self, n: i32) -> (r: Out) {
        let taken = self.last.take();
        let (start_i, mut state): (i32, M::State) = match taken {
            Some(pair) => {
                if pair.0 < n {
                    (pair.0 + 1, pair.1)
                } else {
                    (0, self.machine.start_state())
                }
            },
            None => (0, self.machine.start_state()),
        };
        let mut i: i64 = start_i as i64;
        let mut out: Option<Out> = None;
        proof {
            assert(state == run_state(self.machine, self.input, i as int));
        }
        while i <= n as i64
            invariant
                0 <= i <= n as int + 1,
                n >= 0,
                self.machine == old(self).m(),
                self.input.inv(),
                forall|m: int| self.input.at(m) == old(self).in_sig().at(m),
                forall|m: int| self.input.idx_ok(m) == old(self).in_sig().idx_ok(m),
                forall|k: int| 0 <= k <= n as int ==> old(self).in_sig().idx_ok(k),
                state == run_state(self.machine, self.input, i as int),
                i == n as int + 1 ==> out == out_at(self.machine, self.input, n as int),
            decreases n as int + 1 - i,
        {
            let ghost pre_input = self.input;
            let v = self.input.sample(i as i32);
            proof {
                lemma_run_state_stable(self.machine, pre_input, self.input, i as int);
                assert(v == self.input.at(i as int));
            }
            let step = self.machine.next_values(&state, Some(v));
            proof {
                assert(run_state(self.machine, self.input, i as int + 1) == step.0);
            }
            state = step.0;
            out = step.1;
            i = i + 1;
        }
        self.last = Some((n, state));
        proof {
            lemma_run_state_stable(old(self).m(), old(self).in_sig(), self.input, n as int + 1);
            assert(out_at(self.machine, self.input, n as int) == out_at(
                old(self).m(),
                old(self).in_sig(),
                n as int,
            )) by {
                lemma_run_state_stable(
                    old(self).m(),
                    old(self).in_sig(),
                    self.input,
                    n as int,
                );
            }
            assert forall|m: int| final(self).at(m) == old(self).at(m) by {
                lemma_run_state_stable(old(self).m(), old(self).in_sig(), self.input, m);
            }
            assert forall|m: int| final(self).idx_ok(m) == old(self).idx_ok(m) by {
                lemma_run_state_stable(old(self).m(), old(self).in_sig(), self.input, m);
                assert(out_at(self.machine, self.input, m) == out_at(
                    old(self).m(),
                    old(self).in_sig(),
                    m,
                ));
                if forall|k: int| 0 <= k <= m ==> old(self).in_sig().idx_ok(k) {
                    assert forall|k: int| 0 <= k <= m implies self.input.idx_ok(k) by {
                        assert(old(self).in_sig().idx_ok(k));
                    }
                }
                if forall|k: int| 0 <= k <= m ==> self.input.idx_ok(k) {
                    assert forall|k: int| 0 <= k <= m implies old(self).in_sig().idx_ok(k) by {
                        assert(self.input.idx_ok(k));
                    }
                }
            }
        }
        out.unwrap()
    }
}

} // verus!
