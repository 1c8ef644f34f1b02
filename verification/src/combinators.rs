//! Composition operators over state machines: series, parallel, feedback,
//! conditional routing, sequencing and repetition. Each combinator owns its
//! children by value and builds its composite state from theirs; its spec
//! functions are defined from the children's spec functions, so every law
//! proved about a composite holds for arbitrary verified children.

use crate::sm::{spec_transduce, Binop, Condition, StateMachine};
use core::marker::PhantomData;
use vstd::prelude::*;

verus! {

/// A sum of two state types, used by the sequencing and branching combinators.
#[derive(Debug)]
pub enum Either<L, R> {
    Left(L),
    Right(R),
}

/// Series composition: the first machine's output feeds the second machine's
/// input each tick; done when either child is done.
pub struct Cascade<M1, M2, Mid> {
    pub first_machine: M1,
    pub second_machine: M2,
    pub _phantom: PhantomData<Mid>,
}

impl<M1, M2, Mid> Cascade<M1, M2, Mid> {
    pub fn new(first_machine: M1, second_machine: M2) -> (r: Self)
        ensures
            r.first_machine == first_machine,
            r.second_machine == second_machine,
    {
        Cascade { first_machine, second_machine, _phantom: PhantomData }
    }
}

impl<In, Mid, Out, M1: StateMachine<In, Mid>, M2: StateMachine<Mid, Out>> StateMachine<
    In,
    Out,
> for Cascade<M1, M2, Mid> {
    type State = (M1::State, M2::State);

    open spec fn spec_start(&self) -> Self::State {
        (self.first_machine.spec_start(), self.second_machine.spec_start())
    }

    open spec fn spec_next(&self, state: Self::State, input: Option<In>) -> (
        Self::State,
        Option<Out>,
    ) {
        let first = self.first_machine.spec_next(state.0, input);
        let second = self.second_machine.spec_next(state.1, first.1);
        ((first.0, second.0), second.1)
    }

    open spec fn spec_done(&self, state: Self::State) -> bool {
        self.first_machine.spec_done(state.0) || self.second_machine.spec_done(state.1)
    }

    fn start_state(&self) -> (s: Self::State) {
        (self.first_machine.start_state(), self.second_machine.start_state())
    }

    fn next_values(&self, state: &Self::State, input: Option<In>) -> (r: (
        Self::State,
        Option<Out>,
    )) {
        let first = self.first_machine.next_values(&state.0, input);
        let second = self.second_machine.next_values(&state.1, first.1);
        ((first.0, second.0), second.1)
    }

    fn done(&self, state: &Self::State) -> (b: bool) {
        self.first_machine.done(&state.0) || self.second_machine.done(&state.1)
    }

    fn clone_state(&self, state: &Self::State) -> (r: Self::State) {
        (self.first_machine.clone_state(&state.0), self.second_machine.clone_state(&state.1))
    }
}

/// Parallel composition on one shared input: both children advance each tick;
/// an output appears only when both children produce one.
pub struct Parallel<M1, M2> {
    pub machine1: M1,
    pub machine2: M2,
}

impl<M1, M2> Parallel<M1, M2> {
    pub fn new(machine1: M1, machine2: M2) -> (r: Self)
        ensures
            r.machine1 == machine1,
            r.machine2 == machine2,
    {
        Parallel { machine1, machine2 }
    }
}

impl<In: Copy, Out1, Out2, M1: StateMachine<In, Out1>, M2: StateMachine<In, Out2>> StateMachine<
    In,
    (Out1, Out2),
> for Parallel<M1, M2> {
    type State = (M1::State, M2::State);

    open spec fn spec_start(&self) -> Self::State {
        (self.machine1.spec_start(), self.machine2.spec_start())
    }

    open spec fn spec_next(&self, state: Self::State, input: Option<In>) -> (
        Self::State,
        Option<(Out1, Out2)>,
    ) {
        let first = self.machine1.spec_next(state.0, input);
        let second = self.machine2.spec_next(state.1, input);
        let out = match (first.1, second.1) {
            (Option::Some(o1), Option::Some(o2)) => Option::Some((o1, o2)),
            _ => Option::None,
        };
        ((first.0, second.0), out)
    }

    open spec fn spec_done(&self, state: Self::State) -> bool {
        self.machine1.spec_done(state.0) || self.machine2.spec_done(state.1)
    }

    fn start_state(&self) -> (s: Self::State) {
        (self.machine1.start_state(), self.machine2.start_state())
    }

    fn next_values(&self, state: &Self::State, input: Option<In>) -> (r: (
        Self::State,
        Option<(Out1, Out2)>,
    )) {
        let first = self.machine1.next_values(&state.0, input);
        let second = self.machine2.next_values(&state.1, input);
        let out = match (first.1, second.1) {
            (Option::Some(o1), Option::Some(o2)) => Option::Some((o1, o2)),
            _ => Option::None,
        };
        ((first.0, second.0), out)
    }

    fn done(&self, state: &Self::State) -> (b: bool) {
        self.machine1.done(&state.0) || self.machine2.done(&state.1)
    }

    fn clone_state(&self, state: &Self::State) -> (r: Self::State) {
        (self.machine1.clone_state(&state.0), self.machine2.clone_state(&state.1))
    }
}

/// Parallel composition on a pair input: each child receives its own half.
pub struct Parallel2<M1, M2> {
    pub machine1: M1,
    pub machine2: M2,
}

impl<M1, M2> Parallel2<M1, M2> {
    pub fn new(machine1: M1, machine2: M2) -> (r: Self)
        ensures
            r.machine1 == machine1,
            r.machine2 == machine2,
    {
        Parallel2 { machine1, machine2 }
    }
}

impl<I1, I2, Out1, Out2, M1: StateMachine<I1, Out1>, M2: StateMachine<I2, Out2>> StateMachine<
    (I1, I2),
    (Out1, Out2),
> for Parallel2<M1, M2> {
    type State = (M1::State, M2::State);

    open spec fn spec_start(&self) -> Self::State {
        (self.machine1.spec_start(), self.machine2.spec_start())
    }

    open spec fn spec_next(&self, state: Self::State, input: Option<(I1, I2)>) -> (
        Self::State,
        Option<(Out1, Out2)>,
    ) {
        let halves = match input {
            Option::Some(p) => (Option::Some(p.0), Option::Some(p.1)),
            Option::None => (Option::None, Option::None),
        };
        let first = self.machine1.spec_next(state.0, halves.0);
        let second = self.machine2.spec_next(state.1, halves.1);
        let out = match (first.1, second.1) {
            (Option::Some(o1), Option::Some(o2)) => Option::Some((o1, o2)),
            _ => Option::None,
        };
        ((first.0, second.0), out)
    }

    open spec fn spec_done(&self, state: Self::State) -> bool {
        self.machine1.spec_done(state.0) || self.machine2.spec_done(state.1)
    }

    fn start_state(&self) -> (s: Self::State) {
        (self.machine1.start_state(), self.machine2.start_state())
    }

    fn next_values(&self, state: &Self::State, input: Option<(I1, I2)>) -> (r: (
        Self::State,
        Option<(Out1, Out2)>,
    )) {
        let halves = match input {
            Option::Some(p) => (Option::Some(p.0), Option::Some(p.1)),
            Option::None => (Option::None, Option::None),
        };
        let first = self.machine1.next_values(&state.0, halves.0);
        let second = self.machine2.next_values(&state.1, halves.1);
        let out = match (first.1, second.1) {
            (Option::Some(o1), Option::Some(o2)) => Option::Some((o1, o2)),
            _ => Option::None,
        };
        ((first.0, second.0), out)
    }

    fn done(&self, state: &Self::State) -> (b: bool) {
        self.machine1.done(&state.0) || self.machine2.done(&state.1)
    }

    fn clone_state(&self, state: &Self::State) -> (r: Self::State) {
        (self.machine1.clone_state(&state.0), self.machine2.clone_state(&state.1))
    }
}

/// Closes the loop on a machine whose input and output types match. Each tick
/// the wrapped machine is asked for its output with no input (sound only for
/// machines whose output does not depend on a present input, such as delays),
/// and the state then advances by feeding that output back in. The external
/// input is ignored.
pub struct Feedback<M> {
    pub machine: M,
}

impl<M> Feedback<M> {
    pub fn new(machine: M) -> (r: Self)
        ensures
            r.machine == machine,
    {
        Feedback { machine }
    }
}

impl<I: Copy, M: StateMachine<I, I>> StateMachine<I, I> for Feedback<M> {
    type State = M::State;

    open spec fn spec_start(&self) -> Self::State {
        self.machine.spec_start()
    }

    open spec fn spec_next(&self, state: Self::State, input: Option<I>) -> (
        Self::State,
        Option<I>,
    ) {
        let probe = self.machine.spec_next(state, Option::None);
        let advance = self.machine.spec_next(state, probe.1);
        (advance.0, probe.1)
    }

    open spec fn spec_done(&self, state: Self::State) -> bool {
        self.machine.spec_done(state)
    }

    fn start_state(&self) -> (s: Self::State) {
        self.machine.start_state()
    }

    fn next_values(&self, state: &Self::State, input: Option<I>) -> (r: (Self::State, Option<I>)) {
        let probe = self.machine.next_values(state, None);
        let advance = self.machine.next_values(state, probe.1);
        (advance.0, probe.1)
    }

    fn done(&self, state: &Self::State) -> (b: bool) {
        self.machine.done(state)
    }

    fn clone_state(&self, state: &Self::State) -> (r: Self::State) {
        self.machine.clone_state(state)
    }
}

/// Closes a loop around the second port of a two-input machine: the emitted
/// output is the machine's output on no input, and the state advances on the
/// pair of the external input and that output.
pub struct Feedback2<M> {
    pub machine: M,
}

impl<M> Feedback2<M> {
    pub fn new(machine: M) -> (r: Self)
        ensures
            r.machine == machine,
    {
        Feedback2 { machine }
    }
}

impl<In, Out: Copy, M: StateMachine<(In, Out), Out>> StateMachine<In, Out> for Feedback2<M> {
    type State = M::State;

    open spec fn spec_start(&self) -> Self::State {
        self.machine.spec_start()
    }

    open spec fn spec_next(&self, state: Self::State, input: Option<In>) -> (
        Self::State,
        Option<Out>,
    ) {
        let probe = self.machine.spec_next(state, Option::None);
        let fed = match (input, probe.1) {
            (Option::Some(i), Option::Some(o)) => Option::Some((i, o)),
            _ => Option::None,
        };
        let advance = self.machine.spec_next(state, fed);
        (advance.0, probe.1)
    }

    open spec fn spec_done(&self, state: Self::State) -> bool {
        self.machine.spec_done(state)
    }

    fn start_state(&self) -> (s: Self::State) {
        self.machine.start_state()
    }

    fn next_values(&self, state: &Self::State, input: Option<In>) -> (r: (
        Self::State,
        Option<Out>,
    )) {
        let probe = self.machine.next_values(state, None);
        let fed = match (input, probe.1) {
            (Option::Some(i), Option::Some(o)) => Option::Some((i, o)),
            _ => Option::None,
        };
        let advance = self.machine.next_values(state, fed);
        (advance.0, probe.1)
    }

    fn done(&self, state: &Self::State) -> (b: bool) {
        self.machine.done(state)
    }

    fn clone_state(&self, state: &Self::State) -> (r: Self::State) {
        self.machine.clone_state(state)
    }
}

/// Feedback through a second machine, merging the external input with the
/// fed-back value by a binary operator before re-injection.
pub struct FeedbackOp<M1, M2, Op, In1, Out2> {
    pub first_machine: M1,
    pub second_machine: M2,
    pub op: Op,
    pub _phantom: PhantomData<(In1, Out2)>,
}

impl<M1, M2, Op, In1, Out2> FeedbackOp<M1, M2, Op, In1, Out2> {
    pub fn new(first_machine: M1, second_machine: M2, op: Op) -> (r: Self)
        ensures
            r.first_machine == first_machine,
            r.second_machine == second_machine,
            r.op == op,
    {
        FeedbackOp { first_machine, second_machine, op, _phantom: PhantomData }
    }
}

impl<
    In,
    In1,
    Out: Copy,
    Out2,
    M1: StateMachine<In1, Out>,
    M2: StateMachine<Out, Out2>,
    Op: Binop<In, Out2, In1>,
> StateMachine<In, Out> for FeedbackOp<M1, M2, Op, In1, Out2> {
    type State = (M1::State, M2::State);

    open spec fn spec_start(&self) -> Self::State {
        (self.first_machine.spec_start(), self.second_machine.spec_start())
    }

    open spec fn spec_next(&self, state: Self::State, input: Option<In>) -> (
        Self::State,
        Option<Out>,
    ) {
        let probe1 = self.first_machine.spec_next(state.0, Option::None);
        let probe2 = self.second_machine.spec_next(state.1, probe1.1);
        let merged = match (input, probe2.1) {
            (Option::Some(i), Option::Some(b)) => Option::Some(self.op.spec_apply(i, b)),
            _ => Option::None,
        };
        let advance1 = self.first_machine.spec_next(state.0, merged);
        let advance2 = self.second_machine.spec_next(state.1, advance1.1);
        ((advance1.0, advance2.0), advance1.1)
    }

    open spec fn spec_done(&self, state: Self::State) -> bool {
        self.first_machine.spec_done(state.0) || self.second_machine.spec_done(state.1)
    }

    fn start_state(&self) -> (s: Self::State) {
        (self.first_machine.start_state(), self.second_machine.start_state())
    }

    fn next_values(&self, state: &Self::State, input: Option<In>) -> (r: (
        Self::State,
        Option<Out>,
    )) {
        let probe1 = self.first_machine.next_values(&state.0, None);
        let probe2 = self.second_machine.next_values(&state.1, probe1.1);
        let merged = match (input, probe2.1) {
            (Option::Some(i), Option::Some(b)) => Option::Some(self.op.apply(i, b)),
            _ => Option::None,
        };
        let advance1 = self.first_machine.next_values(&state.0, merged);
        let advance2 = self.second_machine.next_values(&state.1, advance1.1);
        ((advance1.0, advance2.0), advance1.1)
    }

    fn done(&self, state: &Self::State) -> (b: bool) {
        self.first_machine.done(&state.0) || self.second_machine.done(&state.1)
    }

    fn clone_state(&self, state: &Self::State) -> (r: Self::State) {
        (self.first_machine.clone_state(&state.0), self.second_machine.clone_state(&state.1))
    }
}

/// Routes each tick entirely to one of two children based on a predicate on
/// the current input; only the selected child's state advances.
pub struct Switch<M1, M2, P> {
    pub first_machine: M1,
    pub second_machine: M2,
    pub pred: P,
}

impl<M1, M2, P> Switch<M1, M2, P> {
    pub fn new(first_machine: M1, second_machine: M2, pred: P) -> (r: Self)
        ensures
            r.first_machine == first_machine,
            r.second_machine == second_machine,
            r.pred == pred,
    {
        Switch { first_machine, second_machine, pred }
    }
}

impl<
    In: Copy,
    Out,
    M1: StateMachine<In, Out>,
    M2: StateMachine<In, Out>,
    P: Condition<In>,
> StateMachine<In, Out> for Switch<M1, M2, P> {
    type State = (M1::State, M2::State);

    open spec fn spec_start(&self) -> Self::State {
        (self.first_machine.spec_start(), self.second_machine.spec_start())
    }

    open spec fn spec_next(&self, state: Self::State, input: Option<In>) -> (
        Self::State,
        Option<Out>,
    ) {
        let to_first = match input {
            Option::Some(i) => self.pred.spec_holds(i),
            Option::None => false,
        };
        if to_first {
            let first = self.first_machine.spec_next(state.0, input);
            ((first.0, state.1), first.1)
        } else {
            let second = self.second_machine.spec_next(state.1, input);
            ((state.0, second.0), second.1)
        }
    }

    open spec fn spec_done(&self, state: Self::State) -> bool {
        self.first_machine.spec_done(state.0) || self.second_machine.spec_done(state.1)
    }

    fn start_state(&self) -> (s: Self::State) {
        (self.first_machine.start_state(), self.second_machine.start_state())
    }

    fn next_values(&self, state: &Self::State, input: Option<In>) -> (r: (
        Self::State,
        Option<Out>,
    )) {
        let to_first = match input {
            Option::Some(i) => self.pred.holds(i),
            Option::None => false,
        };
        if to_first {
            let first = self.first_machine.next_values(&state.0, input);
            ((first.0, self.second_machine.clone_state(&state.1)), first.1)
        } else {
            let second = self.second_machine.next_values(&state.1, input);
            ((self.first_machine.clone_state(&state.0), second.0), second.1)
        }
    }

    fn done(&self, state: &Self::State) -> (b: bool) {
        self.first_machine.done(&state.0) || self.second_machine.done(&state.1)
    }

    fn clone_state(&self, state: &Self::State) -> (r: Self::State) {
        (self.first_machine.clone_state(&state.0), self.second_machine.clone_state(&state.1))
    }
}

/// Advances both children every tick; only the selected child's output is
/// emitted.
pub struct Mux<M1, M2, P> {
    pub first_machine: M1,
    pub second_machine: M2,
    pub pred: P,
}

impl<M1, M2, P> Mux<M1, M2, P> {
    pub fn new(first_machine: M1, second_machine: M2, pred: P) -> (r: Self)
        ensures
            r.first_machine == first_machine,
            r.second_machine == second_machine,
            r.pred == pred,
    {
        Mux { first_machine, second_machine, pred }
    }
}

impl<
    In: Copy,
    Out,
    M1: StateMachine<In, Out>,
    M2: StateMachine<In, Out>,
    P: Condition<In>,
> StateMachine<In, Out> for Mux<M1, M2, P> {
    type State = (M1::State, M2::State);

    open spec fn spec_start(&self) -> Self::State {
        (self.first_machine.spec_start(), self.second_machine.spec_start())
    }

    open spec fn spec_next(&self, state: Self::State, input: Option<In>) -> (
        Self::State,
        Option<Out>,
    ) {
        let first = self.first_machine.spec_next(state.0, input);
        let second = self.second_machine.spec_next(state.1, input);
        let to_first = match input {
            Option::Some(i) => self.pred.spec_holds(i),
            Option::None => false,
        };
        ((first.0, second.0), if to_first {
            first.1
        } else {
            second.1
        })
    }

    open spec fn spec_done(&self, state: Self::State) -> bool {
        self.first_machine.spec_done(state.0) || self.second_machine.spec_done(state.1)
    }

    fn start_state(&self) -> (s: Self::State) {
        (self.first_machine.start_state(), self.second_machine.start_state())
    }

    fn next_values(&self, state: &Self::State, input: Option<In>) -> (r: (
        Self::State,
        Option<Out>,
    )) {
        let first = self.first_machine.next_values(&state.0, input);
        let second = self.second_machine.next_values(&state.1, input);
        let to_first = match input {
            Option::Some(i) => self.pred.holds(i),
            Option::None => false,
        };
        ((first.0, second.0), if to_first {
            first.1
        } else {
            second.1
        })
    }

    fn done(&self, state: &Self::State) -> (b: bool) {
        self.first_machine.done(&state.0) || self.second_machine.done(&state.1)
    }

    fn clone_state(&self, state: &Self::State) -> (r: Self::State) {
        (self.first_machine.clone_state(&state.0), self.second_machine.clone_state(&state.1))
    }
}

/// Like [`Switch`], but the branch is chosen once, on the first input, and
/// held for the machine's lifetime.
pub struct If<M1, M2, P> {
    pub first_machine: M1,
    pub second_machine: M2,
    pub pred: P,
}

impl<M1, M2, P> If<M1, M2, P> {
    pub fn new(first_machine: M1, second_machine: M2, pred: P) -> (r: Self)
        ensures
            r.first_machine == first_machine,
            r.second_machine == second_machine,
            r.pred == pred,
    {
        If { first_machine, second_machine, pred }
    }
}

impl<
    In: Copy,
    Out,
    M1: StateMachine<In, Out>,
    M2: StateMachine<In, Out>,
    P: Condition<In>,
> StateMachine<In, Out> for If<M1, M2, P> {
    type State = Option<Either<M1::State, M2::State>>;

    open spec fn spec_start(&self) -> Self::State {
        Option::None
    }

    open spec fn spec_next(&self, state: Self::State, input: Option<In>) -> (
        Self::State,
        Option<Out>,
    ) {
        let branch = match state {
            Option::Some(b) => b,
            Option::None => {
                let to_first = match input {
                    Option::Some(i) => self.pred.spec_holds(i),
                    Option::None => false,
                };
                if to_first {
                    Either::Left(self.first_machine.spec_start())
                } else {
                    Either::Right(self.second_machine.spec_start())
                }
            },
        };
        match branch {
            Either::Left(s1) => {
                let first = self.first_machine.spec_next(s1, input);
                (Option::Some(Either::Left(first.0)), first.1)
            },
            Either::Right(s2) => {
                let second = self.second_machine.spec_next(s2, input);
                (Option::Some(Either::Right(second.0)), second.1)
            },
        }
    }

    open spec fn spec_done(&self, state: Self::State) -> bool {
        match state {
            Option::Some(Either::Left(s1)) => self.first_machine.spec_done(s1),
            Option::Some(Either::Right(s2)) => self.second_machine.spec_done(s2),
            Option::None => false,
        }
    }

    fn start_state(&self) -> (s: Self::State) {
        None
    }

    fn next_values(&self, state: &Self::State, input: Option<In>) -> (r: (
        Self::State,
        Option<Out>,
    )) {
        match state {
            Option::Some(Either::Left(s1)) => {
                let first = self.first_machine.next_values(s1, input);
                (Some(Either::Left(first.0)), first.1)
            },
            Option::Some(Either::Right(s2)) => {
                let second = self.second_machine.next_values(s2, input);
                (Some(Either::Right(second.0)), second.1)
            },
            Option::None => {
                let to_first = match input {
                    Option::Some(i) => self.pred.holds(i),
                    Option::None => false,
                };
                if to_first {
                    let s1 = self.first_machine.start_state();
                    let first = self.first_machine.next_values(&s1, input);
                    (Some(Either::Left(first.0)), first.1)
                } else {
                    let s2 = self.second_machine.start_state();
                    let second = self.second_machine.next_values(&s2, input);
                    (Some(Either::Right(second.0)), second.1)
                }
            },
        }
    }

    fn done(&self, state: &Self::State) -> (b: bool) {
        match state {
            Option::Some(Either::Left(s1)) => self.first_machine.done(s1),
            Option::Some(Either::Right(s2)) => self.second_machine.done(s2),
            Option::None => false,
        }
    }

    fn clone_state(&self, state: &Self::State) -> (r: Self::State) {
        match state {
            Option::Some(Either::Left(s1)) => Some(
                Either::Left(self.first_machine.clone_state(s1)),
            ),
            Option::Some(Either::Right(s2)) => Some(
                Either::Right(self.second_machine.clone_state(s2)),
            ),
            Option::None => None,
        }
    }
}

/// Runs the first child until its completion holds, then switches permanently
/// to the second; done once the second child is done.
pub struct Chain<M1, M2> {
    pub first_machine: M1,
    pub second_machine: M2,
}

impl<M1, M2> Chain<M1, M2> {
    pub fn new(first_machine: M1, second_machine: M2) -> (r: Self)
        ensures
            r.first_machine == first_machine,
            r.second_machine == second_machine,
    {
        Chain { first_machine, second_machine }
    }
}

impl<In, Out, M1: StateMachine<In, Out>, M2: StateMachine<In, Out>> StateMachine<In, Out> for Chain<
    M1,
    M2,
> {
    type State = Either<M1::State, M2::State>;

    open spec fn spec_start(&self) -> Self::State {
        Either::Left(self.first_machine.spec_start())
    }

    open spec fn spec_next(&self, state: Self::State, input: Option<In>) -> (
        Self::State,
        Option<Out>,
    ) {
        match state {
            Either::Left(s1) => {
                if !self.first_machine.spec_done(s1) {
                    let first = self.first_machine.spec_next(s1, input);
                    (Either::Left(first.0), first.1)
                } else {
                    let s2 = self.second_machine.spec_start();
                    if !self.second_machine.spec_done(s2) {
                        let second = self.second_machine.spec_next(s2, input);
                        (Either::Right(second.0), second.1)
                    } else {
                        (Either::Right(s2), Option::None)
                    }
                }
            },
            Either::Right(s2) => {
                if !self.second_machine.spec_done(s2) {
                    let second = self.second_machine.spec_next(s2, input);
                    (Either::Right(second.0), second.1)
                } else {
                    (Either::Right(s2), Option::None)
                }
            },
        }
    }

    open spec fn spec_done(&self, state: Self::State) -> bool {
        match state {
            Either::Right(s2) => self.second_machine.spec_done(s2),
            Either::Left(_) => false,
        }
    }

    fn start_state(&self) -> (s: Self::State) {
        Either::Left(self.first_machine.start_state())
    }

    fn next_values(&self, state: &Self::State, input: Option<In>) -> (r: (
        Self::State,
        Option<Out>,
    )) {
        match state {
            Either::Left(s1) => {
                if !self.first_machine.done(s1) {
                    let first = self.first_machine.next_values(s1, input);
                    (Either::Left(first.0), first.1)
                } else {
                    let s2 = self.second_machine.start_state();
                    if !self.second_machine.done(&s2) {
                        let second = self.second_machine.next_values(&s2, input);
                        (Either::Right(second.0), second.1)
                    } else {
                        (Either::Right(s2), None)
                    }
                }
            },
            Either::Right(s2) => {
                if !self.second_machine.done(s2) {
                    let second = self.second_machine.next_values(s2, input);
                    (Either::Right(second.0), second.1)
                } else {
                    (Either::Right(self.second_machine.clone_state(s2)), None)
                }
            },
        }
    }

    fn done(&self, state: &Self::State) -> (b: bool) {
        match state {
            Either::Right(s2) => self.second_machine.done(s2),
            Either::Left(_) => false,
        }
    }

    fn clone_state(&self, state: &Self::State) -> (r: Self::State) {
        match state {
            Either::Left(s1) => Either::Left(self.first_machine.clone_state(s1)),
            Either::Right(s2) => Either::Right(self.second_machine.clone_state(s2)),
        }
    }
}

/// Restarts the child from its start state every time it reports done, up to
/// `n` repetitions (`None` means unbounded); done once the repetition count
/// is reached. The count saturates at the machine limit of `usize`.
pub struct Repeat<M> {
    pub machine: M,
    pub n: Option<usize>,
}

impl<M> Repeat<M> {
    pub fn new(machine: M, n: Option<usize>) -> (r: Self)
        ensures
            r.machine == machine,
            r.n == n,
    {
        Repeat { machine, n }
    }
}

impl<In, Out, M: StateMachine<In, Out>> StateMachine<In, Out> for Repeat<M> {
    type State = (usize, M::State);

    open spec fn spec_start(&self) -> Self::State {
        (0usize, self.machine.spec_start())
    }

    open spec fn spec_next(&self, state: Self::State, input: Option<In>) -> (
        Self::State,
        Option<Out>,
    ) {
        let advance = self.machine.spec_next(state.1, input);
        if self.machine.spec_done(advance.0) && self.n != Option::Some(state.0) {
            let bumped = if state.0 < usize::MAX {
                (state.0 + 1) as usize
            } else {
                state.0
            };
            ((bumped, self.machine.spec_start()), advance.1)
        } else {
            ((state.0, advance.0), advance.1)
        }
    }

    open spec fn spec_done(&self, state: Self::State) -> bool {
        self.n == Option::Some(state.0)
    }

    fn start_state(&self) -> (s: Self::State) {
        (0, self.machine.start_state())
    }

    fn next_values(&self, state: &Self::State, input: Option<In>) -> (r: (
        Self::State,
        Option<Out>,
    )) {
        let advance = self.machine.next_values(&state.1, input);
        let at_bound = match self.n {
            Some(k) => k == state.0,
            None => false,
        };
        if self.machine.done(&advance.0) && !at_bound {
            let bumped = if state.0 < usize::MAX {
                state.0 + 1
            } else {
                state.0
            };
            ((bumped, self.machine.start_state()), advance.1)
        } else {
            ((state.0, advance.0), advance.1)
        }
    }

    fn done(&self, state: &Self::State) -> (b: bool) {
        match self.n {
            Some(k) => k == state.0,
            None => false,
        }
    }

    fn clone_state(&self, state: &Self::State) -> (r: Self::State) {
        (state.0, self.machine.clone_state(&state.1))
    }
}

/// Repetition gated by a predicate on each tick's input: the child restarts
/// on completion only while the predicate has not fired, and the composite is
/// done only when the predicate has fired and the child is done.
pub struct RepeatUntil<M, P> {
    pub machine: M,
    pub pred: P,
}

impl<M, P> RepeatUntil<M, P> {
    pub fn new(machine: M, pred: P) -> (r: Self)
        ensures
            r.machine == machine,
            r.pred == pred,
    {
        RepeatUntil { machine, pred }
    }
}

impl<In: Copy, Out, M: StateMachine<In, Out>, P: Condition<In>> StateMachine<In, Out> for RepeatUntil<
    M,
    P,
> {
    type State = (M::State, bool);

    open spec fn spec_start(&self) -> Self::State {
        (self.machine.spec_start(), false)
    }

    open spec fn spec_next(&self, state: Self::State, input: Option<In>) -> (
        Self::State,
        Option<Out>,
    ) {
        let fired = match input {
            Option::Some(i) => self.pred.spec_holds(i),
            Option::None => false,
        };
        let advance = self.machine.spec_next(state.0, input);
        if self.machine.spec_done(advance.0) && !fired {
            ((self.machine.spec_start(), fired), advance.1)
        } else {
            ((advance.0, fired), advance.1)
        }
    }

    open spec fn spec_done(&self, state: Self::State) -> bool {
        self.machine.spec_done(state.0) && state.1
    }

    fn start_state(&self) -> (s: Self::State) {
        (self.machine.start_state(), false)
    }

    fn next_values(&self, state: &Self::State, input: Option<In>) -> (r: (
        Self::State,
        Option<Out>,
    )) {
        let fired = match input {
            Some(i) => self.pred.holds(i),
            None => false,
        };
        let advance = self.machine.next_values(&state.0, input);
        if self.machine.done(&advance.0) && !fired {
            ((self.machine.start_state(), fired), advance.1)
        } else {
            ((advance.0, fired), advance.1)
        }
    }

    fn done(&self, state: &Self::State) -> (b: bool) {
        self.machine.done(&state.0) && state.1
    }

    fn clone_state(&self, state: &Self::State) -> (r: Self::State) {
        (self.machine.clone_state(&state.0), state.1)
    }
}

/// A single run gated by a predicate: done as soon as the predicate has fired
/// on some tick's input or the child itself is done.
pub struct Until<M, P> {
    pub machine: M,
    pub pred: P,
}

impl<M, P> Until<M, P> {
    pub fn new(machine: M, pred: P) -> (r: Self)
        ensures
            r.machine == machine,
            r.pred == pred,
    {
        Until { machine, pred }
    }
}

impl<In: Copy, Out, M: StateMachine<In, Out>, P: Condition<In>> StateMachine<In, Out> for Until<
    M,
    P,
> {
    type State = (M::State, bool);

    open spec fn spec_start(&self) -> Self::State {
        (self.machine.spec_start(), false)
    }

    open spec fn spec_next(&self, state: Self::State, input: Option<In>) -> (
        Self::State,
        Option<Out>,
    ) {
        let fired = match input {
            Option::Some(i) => self.pred.spec_holds(i),
            Option::None => false,
        };
        let advance = self.machine.spec_next(state.0, input);
        ((advance.0, fired), advance.1)
    }

    open spec fn spec_done(&self, state: Self::State) -> bool {
        self.machine.spec_done(state.0) || state.1
    }

    fn start_state(&self) -> (s: Self::State) {
        (self.machine.start_state(), false)
    }

    fn next_values(&self, state: &Self::State, input: Option<In>) -> (r: (
        Self::State,
        Option<Out>,
    )) {
        let fired = match input {
            Some(i) => self.pred.holds(i),
            None => false,
        };
        let advance = self.machine.next_values(&state.0, input);
        ((advance.0, fired), advance.1)
    }

    fn done(&self, state: &Self::State) -> (b: bool) {
        self.machine.done(&state.0) || state.1
    }

    fn clone_state(&self, state: &Self::State) -> (r: Self::State) {
        (self.machine.clone_state(&state.0), state.1)
    }
}

/// Series composition is associative in its observable behaviour: for any
/// three machines and any child states, the two ways of bracketing a cascade
/// produce identical output sequences on every finite input sequence.
pub proof fn lemma_cascade_assoc<In, A, B, Out, M1, M2, M3>(
    m1: M1,
    m2: M2,
    m3: M3,
    s1: M1::State,
    s2: M2::State,
    s3: M3::State,
    inputs: Seq<In>,
) where
    M1: StateMachine<In, A>,
    M2: StateMachine<A, B>,
    M3: StateMachine<B, Out>,

    ensures
        spec_transduce(
            Cascade {
                first_machine: Cascade { first_machine: m1, second_machine: m2, _phantom: PhantomData },
                second_machine: m3,
                _phantom: PhantomData,
            },
            ((s1, s2), s3),
            inputs,
        ).0 == spec_transduce(
            Cascade {
                first_machine: m1,
                second_machine: Cascade { first_machine: m2, second_machine: m3, _phantom: PhantomData },
                _phantom: PhantomData,
            },
            (s1, (s2, s3)),
            inputs,
        ).0,
    decreases inputs.len(),
{
    let left = Cascade {
        first_machine: Cascade { first_machine: m1, second_machine: m2, _phantom: PhantomData },
        second_machine: m3,
        _phantom: PhantomData,
    };
    let right = Cascade {
        first_machine: m1,
        second_machine: Cascade { first_machine: m2, second_machine: m3, _phantom: PhantomData },
        _phantom: PhantomData,
    };
    if inputs.len() == 0 || left.spec_done(((s1, s2), s3)) {
    } else {
        let step1 = m1.spec_next(s1, Some(inputs[0]));
        let step2 = m2.spec_next(s2, step1.1);
        let step3 = m3.spec_next(s3, step2.1);
        assert(left.spec_next(((s1, s2), s3), Some(inputs[0])) == (
            ((step1.0, step2.0), step3.0),
            step3.1,
        ));
        assert(right.spec_next((s1, (s2, s3)), Some(inputs[0])) == (
            (step1.0, (step2.0, step3.0)),
            step3.1,
        ));
        match step3.1 {
            Option::None => {},
            Option::Some(v) => {
                lemma_cascade_assoc(m1, m2, m3, step1.0, step2.0, step3.0, inputs.drop_first());
            },
        }
    }
}


} // verus!
