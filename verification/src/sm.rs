//! The core state-machine abstraction: a Mealy-style transducer given by a
//! start state, a deterministic transition on an optional input, and a
//! completion predicate, together with the drivers that step such a machine
//! over finite input sequences.

use vstd::prelude::*;

verus! {

/// A discrete-time transducer. The three spec functions are the mathematical
/// model; the three exec methods must implement exactly that model, which is
/// what lets every combinator and driver be verified against it.
///
/// `input` being `None` means "no external driving value this tick"; it is
/// used by the self-clocked [`run`] driver and by feedback resolution.
pub trait StateMachine<In, Out> {
    type State;

    /// The state a fresh instance starts in.
    spec fn spec_start(&self) -> Self::State;

    /// The transition relation, as a function: next state and optional output.
    spec fn spec_next(&self, state: Self::State, input: Option<In>) -> (Self::State, Option<Out>);

    /// The completion predicate over states.
    spec fn spec_done(&self, state: Self::State) -> bool;

    fn start_state(&self) -> (s: Self::State)
        ensures
            s == self.spec_start(),
    ;

    fn next_values(&self, state: &Self::State, input: Option<In>) -> (r: (
        Self::State,
        Option<Out>,
    ))
        ensures
            r == self.spec_next(*state, input),
    ;

    fn done(&self, state: &Self::State) -> (b: bool)
        ensures
            b == self.spec_done(*state),
    ;

    /// Duplicates a state value. Combinators that advance only one child per
    /// tick use this to carry the other child's state forward unchanged.
    fn clone_state(&self, state: &Self::State) -> (r: Self::State)
        ensures
            r == *state,
    ;
}

/// A predicate over tick inputs, used by the routing combinators. Users
/// implement it for their own predicate types; the exec method must agree
/// with the spec function.
pub trait Condition<T> {
    spec fn spec_holds(&self, t: T) -> bool;

    fn holds(&self, t: T) -> (b: bool)
        ensures
            b == self.spec_holds(t),
    ;
}

/// A binary operator over plain values, used by the feedback-with-operator
/// combinator to merge an external input with a fed-back value.
pub trait Binop<A, B, R> {
    spec fn spec_apply(&self, a: A, b: B) -> R;

    fn apply(&self, a: A, b: B) -> (r: R)
        ensures
            r == self.spec_apply(a, b),
    ;
}

/// Outputs and final state of driving `m` from `s` over `inputs`, stopping as
/// soon as `done` holds on the current state or a tick yields no output.
pub open spec fn spec_transduce<In, Out, M: StateMachine<In, Out>>(
    m: M,
    s: M::State,
    inputs: Seq<In>,
) -> (Seq<Out>, M::State)
    decreases inputs.len(),
{
    if inputs.len() == 0 || m.spec_done(s) {
        (Seq::<Out>::empty(), s)
    } else {
        let step = m.spec_next(s, Some(inputs[0]));
        match step.1 {
            Option::None => (Seq::<Out>::empty(), step.0),
            Option::Some(v) => {
                let rest = spec_transduce(m, step.0, inputs.drop_first());
                (seq![v] + rest.0, rest.1)
            },
        }
    }
}

/// Outputs and final state of self-clocked driving: up to `n` ticks with no
/// input, stopping at completion or at a tick with no output.
pub open spec fn spec_run<In, Out, M: StateMachine<In, Out>>(m: M, s: M::State, n: nat) -> (
    Seq<Out>,
    M::State,
)
    decreases n,
{
    if n == 0 || m.spec_done(s) {
        (Seq::<Out>::empty(), s)
    } else {
        let step = m.spec_next(s, Option::<In>::None);
        match step.1 {
            Option::None => (Seq::<Out>::empty(), step.0),
            Option::Some(v) => {
                let rest = spec_run(m, step.0, (n - 1) as nat);
                (seq![v] + rest.0, rest.1)
            },
        }
    }
}

/// Drives `m` from its start state over `inputs` (see [`spec_transduce`]).
pub fn transduce<In: Copy, Out, M: StateMachine<In, Out>>(m: &M, inputs: &Vec<In>) -> (out: Vec<
    Out,
>)
    ensures
        out@ == spec_transduce(*m, m.spec_start(), inputs@).0,
{
    let mut state = m.start_state();
    let mut out: Vec<Out> = Vec::new();
    let mut i: usize = 0;
    let ghost total = spec_transduce(*m, m.spec_start(), inputs@);
    proof {
        assert(inputs@.skip(0) =~= inputs@);
    }
    loop
        invariant_except_break
            0 <= i <= inputs@.len(),
            out@ + spec_transduce(*m, state, inputs@.skip(i as int)).0 == total.0,
        ensures
            out@ == total.0,
        decreases inputs@.len() - i,
    {
        if i >= inputs.len() {
            proof {
                assert(inputs@.skip(i as int).len() == 0);
                assert(out@ + spec_transduce(*m, state, inputs@.skip(i as int)).0 =~= out@);
            }
            break ;
        }
        if m.done(&state) {
            proof {
                assert(out@ + spec_transduce(*m, state, inputs@.skip(i as int)).0 =~= out@);
            }
            break ;
        }
        let ghost rest = inputs@.skip(i as int);
        let ghost st0 = state;
        let step = m.next_values(&state, Some(inputs[i]));
        proof {
            assert(rest[0] == inputs@[i as int]);
            assert(rest.drop_first() =~= inputs@.skip(i as int + 1));
        }
        state = step.0;
        match step.1 {
            Option::None => {
                proof {
                    assert(spec_transduce(*m, st0, rest).0 =~= Seq::<Out>::empty());
                    assert(out@ + spec_transduce(*m, st0, rest).0 =~= out@);
                }
                break ;
            },
            Option::Some(v) => {
                proof {
                    let tail = spec_transduce(*m, state, inputs@.skip(i as int + 1)).0;
                    assert(out@ + (seq![v] + tail) =~= (out@ + seq![v]) + tail);
                    assert(out@.push(v) =~= out@ + seq![v]);
                }
                out.push(v);
                i = i + 1;
            },
        }
    }
    out
}

/// Drives `m` self-clocked for at most `n` ticks (see [`spec_run`]).
pub fn run<In, Out, M: StateMachine<In, Out>>(m: &M, n: usize) -> (out: Vec<Out>)
    ensures
        out@ == spec_run(*m, m.spec_start(), n as nat).0,
{
    let mut state = m.start_state();
    let mut out: Vec<Out> = Vec::new();
    let mut i: usize = 0;
    let ghost total = spec_run(*m, m.spec_start(), n as nat);
    loop
        invariant_except_break
            0 <= i <= n,
            out@ + spec_run(*m, state, (n - i) as nat).0 == total.0,
        ensures
            out@ == total.0,
        decreases n - i,
    {
        if i >= n {
            proof {
                assert(out@ + spec_run(*m, state, (n - i) as nat).0 =~= out@);
            }
            break ;
        }
        if m.done(&state) {
            proof {
                assert(out@ + spec_run(*m, state, (n - i) as nat).0 =~= out@);
            }
            break ;
        }
        let ghost fuel = (n - i) as nat;
        let ghost st0 = state;
        let step = m.next_values(&state, None);
        state = step.0;
        match step.1 {
            Option::None => {
                proof {
                    assert(spec_run(*m, st0, fuel).0 =~= Seq::<Out>::empty());
                    assert(out@ + spec_run(*m, st0, fuel).0 =~= out@);
                }
                break ;
            },
            Option::Some(v) => {
                proof {
                    let tail = spec_run(*m, state, (n - (i + 1)) as nat).0;
                    assert(out@ + (seq![v] + tail) =~= (out@ + seq![v]) + tail);
                    assert(out@.push(v) =~= out@ + seq![v]);
                }
                out.push(v);
                i = i + 1;
            },
        }
    }
    out
}

/// The boundary trait for external tick-by-tick drivers that cannot name a
/// concrete machine type: one live machine behind three operations.
pub trait StateFullMachine<In, Out> {
    fn reset(&mut self);

    fn step(&mut self, input: Option<In>) -> Option<Out>;

    fn is_done(&self) -> bool;
}

/// Pairs one immutable machine definition with one live state value: the only
/// mutable, steppable entity of the library.
pub struct StateFull<In, Out, SM: StateMachine<In, Out>> {
    machine: SM,
    state: <SM as StateMachine<In, Out>>::State,
}

impl<In, Out, SM: StateMachine<In, Out>> StateFull<In, Out, SM> {
    /// The machine definition held by this stepper.
    pub closed spec fn m(&self) -> SM {
        self.machine
    }

    /// The current live state.
    pub closed spec fn s(&self) -> SM::State {
        self.state
    }

    pub fn new(sm: SM) -> (r: Self)
        ensures
            r.m() == sm,
            r.s() == sm.spec_start(),
    {
        let state = sm.start_state();
        StateFull { machine: sm, state }
    }

    pub fn reset(&mut self)
        ensures
            final(self).m() == old(self).m(),
            final(self).s() == old(self).m().spec_start(),
    {
        self.state = self.machine.start_state();
    }

    pub fn step(&mut self, input: Option<In>) -> (out: Option<Out>)
        ensures
            final(self).m() == old(self).m(),
            (final(self).s(), out) == old(self).m().spec_next(old(self).s(), input),
    {
        let step = self.machine.next_values(&self.state, input);
        self.state = step.0;
        step.1
    }

    pub fn is_done(&self) -> (b: bool)
        ensures
            b == self.m().spec_done(self.s()),
    {
        self.machine.done(&self.state)
    }

}

impl<In: Copy, Out, SM: StateMachine<In, Out>> StateFull<In, Out, SM> {
    /// Drives the live state over `inputs`, returning the outputs produced
    /// (see [`spec_transduce`]); the live state advances accordingly.
    pub fn transduce(&mut self, inputs: &Vec<In>) -> (out: Vec<Out>)
        ensures
            final(self).m() == old(self).m(),
            (out@, final(self).s()) == spec_transduce(old(self).m(), old(self).s(), inputs@),
    {
        let ghost total = spec_transduce(self.machine, self.state, inputs@);
        let mut out: Vec<Out> = Vec::new();
        let mut i: usize = 0;
        proof {
            assert(inputs@.skip(0) =~= inputs@);
        }
        loop
            invariant_except_break
                0 <= i <= inputs@.len(),
                self.machine == old(self).m(),
                out@ + spec_transduce(self.machine, self.state, inputs@.skip(i as int)).0
                    == total.0,
                spec_transduce(self.machine, self.state, inputs@.skip(i as int)).1 == total.1,
            ensures
                self.machine == old(self).m(),
                out@ == total.0,
                self.state == total.1,
            decreases inputs@.len() - i,
        {
            if i >= inputs.len() {
                proof {
                    assert(inputs@.skip(i as int).len() == 0);
                    assert(out@ + spec_transduce(self.machine, self.state, inputs@.skip(i as int)).0
                        =~= out@);
                }
                break ;
            }
            if self.machine.done(&self.state) {
                proof {
                    assert(out@ + spec_transduce(self.machine, self.state, inputs@.skip(i as int)).0
                        =~= out@);
                }
                break ;
            }
            let ghost rest = inputs@.skip(i as int);
            let ghost st0 = self.state;
            let step = self.machine.next_values(&self.state, Some(inputs[i]));
            proof {
                assert(rest[0] == inputs@[i as int]);
                assert(rest.drop_first() =~= inputs@.skip(i as int + 1));
            }
            self.state = step.0;
            match step.1 {
                Option::None => {
                    proof {
                        assert(spec_transduce(self.machine, st0, rest).0 =~= Seq::<Out>::empty());
                        assert(out@ + spec_transduce(self.machine, st0, rest).0 =~= out@);
                    }
                    break ;
                },
                Option::Some(v) => {
                    proof {
                        let tail = spec_transduce(
                            self.machine,
                            self.state,
                            inputs@.skip(i as int + 1),
                        ).0;
                        assert(out@ + (seq![v] + tail) =~= (out@ + seq![v]) + tail);
                        assert(out@.push(v) =~= out@ + seq![v]);
                    }
                    out.push(v);
                    i = i + 1;
                },
            }
        }
        out
    }

    /// Drives the live state self-clocked for at most `n` ticks (see
    /// [`spec_run`]); the live state advances accordingly.
    pub fn run(&mut self, n: usize) -> (out: Vec<Out>)
        ensures
            final(self).m() == old(self).m(),
            (out@, final(self).s()) == spec_run(old(self).m(), old(self).s(), n as nat),
    {
        let ghost total = spec_run(self.machine, self.state, n as nat);
        let mut out: Vec<Out> = Vec::new();
        let mut i: usize = 0;
        loop
            invariant_except_break
                0 <= i <= n,
                self.machine == old(self).m(),
                out@ + spec_run(self.machine, self.state, (n - i) as nat).0 == total.0,
                spec_run(self.machine, self.state, (n - i) as nat).1 == total.1,
            ensures
                self.machine == old(self).m(),
                out@ == total.0,
                self.state == total.1,
            decreases n - i,
        {
            if i >= n {
                proof {
                    assert(out@ + spec_run(self.machine, self.state, (n - i) as nat).0 =~= out@);
                }
                break ;
            }
            if self.machine.done(&self.state) {
                proof {
                    assert(out@ + spec_run(self.machine, self.state, (n - i) as nat).0 =~= out@);
                }
                break ;
            }
            let ghost fuel = (n - i) as nat;
            let ghost st0 = self.state;
            let step = self.machine.next_values(&self.state, None);
            self.state = step.0;
            match step.1 {
                Option::None => {
                    proof {
                        assert(spec_run(self.machine, st0, fuel).0 =~= Seq::<Out>::empty());
                        assert(out@ + spec_run(self.machine, st0, fuel).0 =~= out@);
                    }
                    break ;
                },
                Option::Some(v) => {
                    proof {
                        let tail = spec_run(self.machine, self.state, (n - (i + 1)) as nat).0;
                        assert(out@ + (seq![v] + tail) =~= (out@ + seq![v]) + tail);
                        assert(out@.push(v) =~= out@ + seq![v]);
                    }
                    out.push(v);
                    i = i + 1;
                },
            }
        }
        out
    }
}

impl<In, Out, SM: StateMachine<In, Out>> StateFullMachine<In, Out> for StateFull<In, Out, SM> {
    fn reset(&mut self) {
        StateFull::reset(self)
    }

    fn step(&mut self, input: Option<In>) -> Option<Out> {
        StateFull::step(self, input)
    }

    fn is_done(&self) -> bool {
        StateFull::is_done(self)
    }
}

/// Wraps a machine into a boundary stepper (see [`StateFull`]).
pub fn into_state_full_machine<In, Out, SM: StateMachine<In, Out>>(sm: SM) -> (r: StateFull<
    In,
    Out,
    SM,
>)
    ensures
        r.m() == sm,
        r.s() == sm.spec_start(),
{
    StateFull::new(sm)
}

} // verus!
