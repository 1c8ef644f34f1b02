//! Primitive machines: the stateless arithmetic elements, the unit delay,
//! and a few constant sources. The integer elements work in the wrapping
//! 64-bit ring of [`crate::coef`], so every transition is total.

use crate::coef::Coef;
use crate::combinators::{Cascade, Feedback, Repeat};
use crate::sm::{spec_run, StateMachine};
use core::marker::PhantomData;
use vstd::prelude::*;

verus! {

/// Adds a fixed step to every input value (wrapping).
pub struct Incr {
    pub step: i64,
}

impl Incr {
    pub fn new(step: i64) -> (r: Self)
        ensures
            r.step == step,
    {
        Incr { step }
    }
}

impl StateMachine<i64, i64> for Incr {
    type State = ();

    open spec fn spec_start(&self) -> Self::State {
        ()
    }

    open spec fn spec_next(&self, state: Self::State, input: Option<i64>) -> (
        Self::State,
        Option<i64>,
    ) {
        ((), match input {
            Option::Some(v) => Option::Some(<i64 as Coef>::plus_spec(v, self.step)),
            Option::None => Option::None,
        })
    }

    open spec fn spec_done(&self, state: Self::State) -> bool {
        false
    }

    fn start_state(&self) -> (s: Self::State) {
        ()
    }

    fn next_values(&self, state: &Self::State, input: Option<i64>) -> (r: (
        Self::State,
        Option<i64>,
    )) {
        ((), match input {
            Some(v) => Some(<i64 as Coef>::plus(v, self.step)),
            None => None,
        })
    }

    fn done(&self, state: &Self::State) -> (b: bool) {
        false
    }

    fn clone_state(&self, state: &Self::State) -> (r: Self::State) {
        ()
    }
}

/// A unit delay: emits on each tick the value received on the previous one,
/// seeded with an initial value.
pub struct Delay<I> {
    pub val: I,
}

impl<I> Delay<I> {
    pub fn new(val: I) -> (r: Self)
        ensures
            r.val == val,
    {
        Delay { val }
    }
}

/// A unit delay as a machine (see [`Delay`]).
pub fn delay<I>(val0: I) -> (r: Delay<I>)
    ensures
        r.val == val0,
{
    Delay { val: val0 }
}

impl<I: Copy> StateMachine<I, I> for Delay<I> {
    type State = Option<I>;

    open spec fn spec_start(&self) -> Self::State {
        Option::Some(self.val)
    }

    open spec fn spec_next(&self, state: Self::State, input: Option<I>) -> (
        Self::State,
        Option<I>,
    ) {
        (input, state)
    }

    open spec fn spec_done(&self, state: Self::State) -> bool {
        false
    }

    fn start_state(&self) -> (s: Self::State) {
        Some(self.val)
    }

    fn next_values(&self, state: &Self::State, input: Option<I>) -> (r: (Self::State, Option<I>)) {
        (input, *state)
    }

    fn done(&self, state: &Self::State) -> (b: bool) {
        false
    }

    fn clone_state(&self, state: &Self::State) -> (r: Self::State) {
        *state
    }
}

/// Adds the two halves of a pair input (wrapping).
pub struct Adder {
    pub _phantom: PhantomData<()>,
}

impl Adder {
    pub fn new() -> (r: Self) {
        Adder { _phantom: PhantomData }
    }
}

impl StateMachine<(i64, i64), i64> for Adder {
    type State = ();

    open spec fn spec_start(&self) -> Self::State {
        ()
    }

    open spec fn spec_next(&self, state: Self::State, input: Option<(i64, i64)>) -> (
        Self::State,
        Option<i64>,
    ) {
        ((), match input {
            Option::Some(p) => Option::Some(<i64 as Coef>::plus_spec(p.0, p.1)),
            Option::None => Option::None,
        })
    }

    open spec fn spec_done(&self, state: Self::State) -> bool {
        false
    }

    fn start_state(&self) -> (s: Self::State) {
        ()
    }

    fn next_values(&self, state: &Self::State, input: Option<(i64, i64)>) -> (r: (
        Self::State,
        Option<i64>,
    )) {
        ((), match input {
            Some(p) => Some(<i64 as Coef>::plus(p.0, p.1)),
            None => None,
        })
    }

    fn done(&self, state: &Self::State) -> (b: bool) {
        false
    }

    fn clone_state(&self, state: &Self::State) -> (r: Self::State) {
        ()
    }
}

/// Multiplies the two halves of a pair input (wrapping).
pub struct Multiplier {
    pub _phantom: PhantomData<()>,
}

impl Multiplier {
    pub fn new() -> (r: Self) {
        Multiplier { _phantom: PhantomData }
    }
}

impl StateMachine<(i64, i64), i64> for Multiplier {
    type State = ();

    open spec fn spec_start(&self) -> Self::State {
        ()
    }

    open spec fn spec_next(&self, state: Self::State, input: Option<(i64, i64)>) -> (
        Self::State,
        Option<i64>,
    ) {
        ((), match input {
            Option::Some(p) => Option::Some(<i64 as Coef>::times_spec(p.0, p.1)),
            Option::None => Option::None,
        })
    }

    open spec fn spec_done(&self, state: Self::State) -> bool {
        false
    }

    fn start_state(&self) -> (s: Self::State) {
        ()
    }

    fn next_values(&self, state: &Self::State, input: Option<(i64, i64)>) -> (r: (
        Self::State,
        Option<i64>,
    )) {
        ((), match input {
            Some(p) => Some(<i64 as Coef>::times(p.0, p.1)),
            None => None,
        })
    }

    fn done(&self, state: &Self::State) -> (b: bool) {
        false
    }

    fn clone_state(&self, state: &Self::State) -> (r: Self::State) {
        ()
    }
}

/// Emits a fixed value on every tick, input or not.
pub struct Constant {
    pub val: i64,
}

impl Constant {
    pub fn new(val: i64) -> (r: Self)
        ensures
            r.val == val,
    {
        Constant { val }
    }
}

impl StateMachine<i64, i64> for Constant {
    type State = ();

    open spec fn spec_start(&self) -> Self::State {
        ()
    }

    open spec fn spec_next(&self, state: Self::State, input: Option<i64>) -> (
        Self::State,
        Option<i64>,
    ) {
        ((), Option::Some(self.val))
    }

    open spec fn spec_done(&self, state: Self::State) -> bool {
        false
    }

    fn start_state(&self) -> (s: Self::State) {
        ()
    }

    fn next_values(&self, state: &Self::State, input: Option<i64>) -> (r: (
        Self::State,
        Option<i64>,
    )) {
        ((), Some(self.val))
    }

    fn done(&self, state: &Self::State) -> (b: bool) {
        false
    }

    fn clone_state(&self, state: &Self::State) -> (r: Self::State) {
        ()
    }
}

/// Multiplies every input by a fixed gain (wrapping).
pub struct Gain {
    pub gain: i64,
}

impl Gain {
    pub fn new(gain: i64) -> (r: Self)
        ensures
            r.gain == gain,
    {
        Gain { gain }
    }
}

impl StateMachine<i64, i64> for Gain {
    type State = ();

    open spec fn spec_start(&self) -> Self::State {
        ()
    }

    open spec fn spec_next(&self, state: Self::State, input: Option<i64>) -> (
        Self::State,
        Option<i64>,
    ) {
        ((), match input {
            Option::Some(v) => Option::Some(<i64 as Coef>::times_spec(v, self.gain)),
            Option::None => Option::None,
        })
    }

    open spec fn spec_done(&self, state: Self::State) -> bool {
        false
    }

    fn start_state(&self) -> (s: Self::State) {
        ()
    }

    fn next_values(&self, state: &Self::State, input: Option<i64>) -> (r: (
        Self::State,
        Option<i64>,
    )) {
        ((), match input {
            Some(v) => Some(<i64 as Coef>::times(v, self.gain)),
            None => None,
        })
    }

    fn done(&self, state: &Self::State) -> (b: bool) {
        false
    }

    fn clone_state(&self, state: &Self::State) -> (r: Self::State) {
        ()
    }
}

/// Passes every input through unchanged.
pub struct Wire<I> {
    pub _phantom: PhantomData<I>,
}

/// An identity machine (see [`Wire`]).
pub fn wire<I>() -> (r: Wire<I>) {
    Wire { _phantom: PhantomData }
}

impl<I> StateMachine<I, I> for Wire<I> {
    type State = ();

    open spec fn spec_start(&self) -> Self::State {
        ()
    }

    open spec fn spec_next(&self, state: Self::State, input: Option<I>) -> (
        Self::State,
        Option<I>,
    ) {
        ((), input)
    }

    open spec fn spec_done(&self, state: Self::State) -> bool {
        false
    }

    fn start_state(&self) -> (s: Self::State) {
        ()
    }

    fn next_values(&self, state: &Self::State, input: Option<I>) -> (r: (Self::State, Option<I>)) {
        ((), input)
    }

    fn done(&self, state: &Self::State) -> (b: bool) {
        false
    }

    fn clone_state(&self, state: &Self::State) -> (r: Self::State) {
        ()
    }
}

/// A gain element as a free constructor (see [`Gain`]).
pub fn scale(gain: i64) -> (r: Gain)
    ensures
        r.gain == gain,
{
    Gain { gain }
}

/// Emits one fixed character per tick and reports done after each emission;
/// under [`Repeat`] it emits the character once per repetition.
pub struct CharMachine<In> {
    pub c: char,
    pub _phantom: PhantomData<In>,
}

impl<In> CharMachine<In> {
    pub fn new(c: char) -> (r: Self)
        ensures
            r.c == c,
    {
        CharMachine { c, _phantom: PhantomData }
    }
}

impl<In> StateMachine<In, char> for CharMachine<In> {
    type State = bool;

    open spec fn spec_start(&self) -> Self::State {
        false
    }

    open spec fn spec_next(&self, state: Self::State, input: Option<In>) -> (
        Self::State,
        Option<char>,
    ) {
        (true, Option::Some(self.c))
    }

    open spec fn spec_done(&self, state: Self::State) -> bool {
        state
    }

    fn start_state(&self) -> (s: Self::State) {
        false
    }

    fn next_values(&self, state: &Self::State, input: Option<In>) -> (r: (
        Self::State,
        Option<char>,
    )) {
        (true, Some(self.c))
    }

    fn done(&self, state: &Self::State) -> (b: bool) {
        *state
    }

    fn clone_state(&self, state: &Self::State) -> (r: Self::State) {
        *state
    }
}

/// The value reached from `v` after `j` wrapping additions of `k`.
pub open spec fn incr_iter(v: i64, k: i64, j: nat) -> i64
    decreases j,
{
    if j == 0 {
        v
    } else {
        <i64 as Coef>::plus_spec(incr_iter(v, k, (j - 1) as nat), k)
    }
}

proof fn lemma_incr_iter_shift(v: i64, k: i64, j: nat)
    ensures
        incr_iter(<i64 as Coef>::plus_spec(v, k), k, j) == incr_iter(v, k, j + 1),
    decreases j,
{
    assert(incr_iter(v, k, j + 1) == <i64 as Coef>::plus_spec(incr_iter(v, k, j), k));
    if j > 0 {
        lemma_incr_iter_shift(v, k, (j - 1) as nat);
        assert(incr_iter(<i64 as Coef>::plus_spec(v, k), k, j) == <i64 as Coef>::plus_spec(
            incr_iter(<i64 as Coef>::plus_spec(v, k), k, (j - 1) as nat),
            k,
        ));
    }
}

proof fn lemma_feedback_incr_delay_from(k: i64, cur: i64, seed: Delay<i64>, n: nat)
    ensures
        ({
            let m = Feedback {
                machine: Cascade {
                    first_machine: Incr { step: k },
                    second_machine: seed,
                    _phantom: PhantomData,
                },
            };
            let out = spec_run(m, ((), Option::Some(cur)), n).0;
            &&& out.len() == n
            &&& forall|j: int| 0 <= j < n ==> out[j] == incr_iter(cur, k, j as nat)
        }),
    decreases n,
{
    let m = Feedback {
        machine: Cascade {
            first_machine: Incr { step: k },
            second_machine: seed,
            _phantom: PhantomData,
        },
    };
    let s = ((), Option::<i64>::Some(cur));
    if n > 0 {
        let bumped = <i64 as Coef>::plus_spec(cur, k);
        assert(m.spec_next(s, Option::None) == ((((), Option::<i64>::Some(bumped))), Option::Some(
            cur,
        )));
        lemma_feedback_incr_delay_from(k, bumped, seed, (n - 1) as nat);
        let rest = spec_run(m, ((), Option::Some(bumped)), (n - 1) as nat).0;
        let out = spec_run(m, s, n).0;
        assert(out == seq![cur] + rest);
        assert forall|j: int| 0 <= j < n implies out[j] == incr_iter(cur, k, j as nat) by {
            if j == 0 {
                assert(incr_iter(cur, k, 0) == cur);
            } else {
                assert(rest[j - 1] == incr_iter(bumped, k, (j - 1) as nat));
                lemma_incr_iter_shift(cur, k, (j - 1) as nat);
            }
        }
    }
}

/// Feedback well-formedness on a register-broken loop: closing the loop over
/// `Incr(k)` in series with `Delay(v)` and running it self-clocked for `n`
/// ticks emits `v, v + k, v + 2k, ...` (wrapping), one value per tick.
pub proof fn lemma_feedback_incr_delay(k: i64, v: i64, n: nat)
    ensures
        ({
            let m = Feedback {
                machine: Cascade {
                    first_machine: Incr { step: k },
                    second_machine: Delay { val: v },
                    _phantom: PhantomData,
                },
            };
            let out = spec_run(m, m.spec_start(), n).0;
            &&& out.len() == n
            &&& forall|j: int| 0 <= j < n ==> out[j] == incr_iter(v, k, j as nat)
        }),
{
    lemma_feedback_incr_delay_from(k, v, Delay { val: v }, n);
}

proof fn lemma_repeat_char_from<In>(c: char, count: usize, taken: usize, flag: bool, n: nat)
    requires
        taken <= count,
    ensures
        ({
            let m = Repeat { machine: CharMachine::<In> { c, _phantom: PhantomData }, n: Option::Some(count) };
            let out = spec_run(m, (taken, flag), n).0;
            let produced = if n < count - taken {
                n
            } else {
                (count - taken) as nat
            };
            &&& out.len() == produced
            &&& (forall|j: int| 0 <= j < produced ==> out[j] == c)
            &&& (n >= count - taken ==> m.spec_done(spec_run(m, (taken, flag), n).1))
        }),
    decreases n,
{
    let m = Repeat {
        machine: CharMachine::<In> { c, _phantom: PhantomData },
        n: Option::<usize>::Some(count),
    };
    let s = (taken, flag);
    if n == 0 {
    } else if taken == count {
        assert(m.spec_done(s));
    } else {
        assert(m.spec_next(s, Option::None) == ((((taken + 1) as usize, false)), Option::Some(c)));
        lemma_repeat_char_from::<In>(c, count, (taken + 1) as usize, false, (n - 1) as nat);
        let rest = spec_run(m, ((taken + 1) as usize, false), (n - 1) as nat).0;
        let out = spec_run(m, s, n).0;
        assert(out == seq![c] + rest);
    }
}

/// Repeat termination: the `count`-fold repetition of a one-shot character
/// machine, run self-clocked for any `n >= count` ticks, emits the character
/// exactly `count` times and then reports done.
pub proof fn lemma_repeat_char_terminates<In>(c: char, count: usize, n: nat)
    requires
        n >= count,
    ensures
        ({
            let m = Repeat { machine: CharMachine::<In> { c, _phantom: PhantomData }, n: Option::Some(count) };
            let out = spec_run(m, m.spec_start(), n).0;
            &&& out.len() == count
            &&& (forall|j: int| 0 <= j < count ==> out[j] == c)
            &&& m.spec_done(spec_run(m, m.spec_start(), n).1)
        }),
{
    lemma_repeat_char_from::<In>(c, count, 0, false, n);
}

} // verus!
