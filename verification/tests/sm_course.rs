use sm::combinators::{
    Cascade, Chain, Feedback, Feedback2, FeedbackOp, If, Mux, Parallel, Repeat, RepeatUntil,
    Switch, Until,
};
use sm::machines::{delay, scale, wire, Adder, CharMachine, Constant, Gain, Incr, Multiplier};
use sm::sm::{run, transduce, Binop, Condition, StateFull, StateMachine};

struct Delay2<I: Copy> {
    val0: I,
    val1: I,
}

impl<I: Copy> Delay2<I> {
    fn new(val0: I, val1: I) -> Self {
        Self { val0, val1 }
    }
}

impl<I: Copy> StateMachine<I, I> for Delay2<I> {
    type State = (Option<I>, Option<I>);

    fn spec_start(&self) -> Self::State {
        unreachable!()
    }

    fn spec_next(&self, _state: Self::State, _input: Option<I>) -> (Self::State, Option<I>) {
        unreachable!()
    }

    fn spec_done(&self, _state: Self::State) -> bool {
        unreachable!()
    }

    fn start_state(&self) -> Self::State {
        (Some(self.val0), Some(self.val1))
    }

    fn next_values(&self, state: &Self::State, input: Option<I>) -> (Self::State, Option<I>) {
        ((state.1, input), state.0)
    }

    fn done(&self, _state: &Self::State) -> bool {
        false
    }

    fn clone_state(&self, state: &Self::State) -> Self::State {
        *state
    }
}

struct Acc;

impl StateMachine<i64, i64> for Acc {
    type State = i64;

    fn spec_start(&self) -> Self::State {
        unreachable!()
    }

    fn spec_next(&self, _state: Self::State, _input: Option<i64>) -> (Self::State, Option<i64>) {
        unreachable!()
    }

    fn spec_done(&self, _state: Self::State) -> bool {
        unreachable!()
    }

    fn start_state(&self) -> i64 {
        0
    }

    fn next_values(&self, state: &i64, input: Option<i64>) -> (i64, Option<i64>) {
        match input {
            Some(v) => {
                let acc = *state + v;
                (acc, Some(acc))
            }
            None => (*state, None),
        }
    }

    fn done(&self, _state: &i64) -> bool {
        false
    }

    fn clone_state(&self, state: &i64) -> i64 {
        *state
    }
}

struct AddOp;

impl Binop<i64, i64, i64> for AddOp {

    fn spec_apply(&self, _a: i64, _b: i64) -> i64 {
        unreachable!()
    }
    fn apply(&self, a: i64, b: i64) -> i64 {
        a + b
    }
}

struct MulOp;

impl Binop<i64, i64, i64> for MulOp {

    fn spec_apply(&self, _a: i64, _b: i64) -> i64 {
        unreachable!()
    }
    fn apply(&self, a: i64, b: i64) -> i64 {
        a * b
    }
}

struct EvenPred;

impl Condition<i64> for EvenPred {

    fn spec_holds(&self, _t: i64) -> bool {
        unreachable!()
    }
    fn holds(&self, t: i64) -> bool {
        t % 2 == 0
    }
}

struct OddPred;

impl Condition<i64> for OddPred {

    fn spec_holds(&self, _t: i64) -> bool {
        unreachable!()
    }
    fn holds(&self, t: i64) -> bool {
        t % 2 != 0
    }
}

struct Gt100;

impl Condition<i64> for Gt100 {

    fn spec_holds(&self, _t: i64) -> bool {
        unreachable!()
    }
    fn holds(&self, t: i64) -> bool {
        t > 100
    }
}

struct Gt10;

impl Condition<i64> for Gt10 {

    fn spec_holds(&self, _t: i64) -> bool {
        unreachable!()
    }
    fn holds(&self, t: i64) -> bool {
        t > 10
    }
}

struct Eq2;

impl Condition<i64> for Eq2 {

    fn spec_holds(&self, _t: i64) -> bool {
        unreachable!()
    }
    fn holds(&self, t: i64) -> bool {
        t == 2
    }
}

struct ConsumeFive;

impl StateMachine<i64, Option<i64>> for ConsumeFive {
    type State = (i64, i64);

    fn spec_start(&self) -> Self::State {
        unreachable!()
    }

    fn spec_next(&self, _state: Self::State, _input: Option<i64>) -> (Self::State, Option<Option<i64>>) {
        unreachable!()
    }

    fn spec_done(&self, _state: Self::State) -> bool {
        unreachable!()
    }

    fn start_state(&self) -> (i64, i64) {
        (0, 0)
    }

    fn next_values(
        &self,
        state: &(i64, i64),
        input: Option<i64>,
    ) -> ((i64, i64), Option<Option<i64>>) {
        match input {
            Some(v) => match state.0 {
                s if s < 4 => ((state.0 + 1, state.1 + v), Some(None)),
                4 => {
                    let out = state.1 + v;
                    ((state.0 + 1, out), Some(Some(out)))
                }
                _ => ((state.0, state.1), Some(Some(state.1))),
            },
            None => (*state, None),
        }
    }

    fn done(&self, state: &(i64, i64)) -> bool {
        state.0 == 5
    }

    fn clone_state(&self, state: &(i64, i64)) -> (i64, i64) {
        *state
    }
}

fn make_incr(step: i64) -> Incr {
    Incr::new(step)
}

#[test]
fn sm_course_it_works() {
    assert_eq!(
        &[100, 10, 1, 0, 2, 0, 0, 3, 0, 0],
        transduce(&Delay2::new(100, 10), &vec![1, 0, 2, 0, 0, 3, 0, 0, 0, 4]).as_slice()
    );
    assert_eq!(
        &[10, 100, 0, 0, 0, 0, 0],
        transduce(&Delay2::new(10, 100), &vec![0, 0, 0, 0, 0, 0, 1]).as_slice()
    );
    assert_eq!(
        &[-1, 0, 1, 2, -3, 1],
        transduce(&Delay2::new(-1, 0), &vec![1, 2, -3, 1, 2, -3]).as_slice()
    );
    assert_eq!(
        &['a', 'b', 'c', 'd', 'e', 'f', 'g'],
        transduce(&Delay2::new('a', 'b'), &vec!['c', 'd', 'e', 'f', 'g', 'i', 'j']).as_slice()
    );
    let mut stepper = StateFull::new(Delay2::new(100, 10));
    assert_eq!(
        &[100, 10, 1, 0, 2, 0, 0, 3, 0, 0],
        stepper.transduce(&vec![1, 0, 2, 0, 0, 3, 0, 0, 0, 4]).as_slice()
    );
}

#[test]
fn sm_course_test_accumulator() {
    assert_eq!(
        &[1, 1, 3, 3, 3, 6, 6, 6, 6, 10],
        transduce(&Acc, &vec![1, 0, 2, 0, 0, 3, 0, 0, 0, 4]).as_slice()
    );
}

#[test]
fn sm_course_test_abc() {
    #[derive(Clone, Copy)]
    enum AbcState {
        ReadA,
        ReadB,
        ReadC,
        Stop,
    }

    struct Abc;

    impl StateMachine<char, bool> for Abc {
        type State = AbcState;

        fn spec_start(&self) -> Self::State {
            unreachable!()
        }

        fn spec_next(&self, _state: Self::State, _input: Option<char>) -> (Self::State, Option<bool>) {
            unreachable!()
        }

        fn spec_done(&self, _state: Self::State) -> bool {
            unreachable!()
        }

        fn start_state(&self) -> AbcState {
            AbcState::ReadA
        }

        fn next_values(&self, state: &AbcState, input: Option<char>) -> (AbcState, Option<bool>) {
            match input {
                Some(c) => {
                    let (next_state, condition) = match state {
                        AbcState::ReadA => (AbcState::ReadB, c == 'a'),
                        AbcState::ReadB => (AbcState::ReadC, c == 'b'),
                        AbcState::ReadC => (AbcState::ReadA, c == 'c'),
                        AbcState::Stop => (AbcState::Stop, false),
                    };
                    (
                        if condition { next_state } else { AbcState::Stop },
                        Some(condition),
                    )
                }
                None => (AbcState::Stop, None),
            }
        }

        fn done(&self, _state: &AbcState) -> bool {
            false
        }

        fn clone_state(&self, state: &AbcState) -> AbcState {
            *state
        }
    }

    assert_eq!(
        &[true, false, false],
        transduce(&Abc, &vec!['a', 'a', 'a']).as_slice()
    );
    assert_eq!(
        &[true, true, true, true, false, false, false],
        transduce(&Abc, &vec!['a', 'b', 'c', 'a', 'c', 'b', 'a']).as_slice()
    );
}

#[test]
fn sm_course_test_average2() {
    struct Average2;

    impl StateMachine<i64, f32> for Average2 {
        type State = f32;

        fn spec_start(&self) -> Self::State {
            unreachable!()
        }

        fn spec_next(&self, _state: Self::State, _input: Option<i64>) -> (Self::State, Option<f32>) {
            unreachable!()
        }

        fn spec_done(&self, _state: Self::State) -> bool {
            unreachable!()
        }

        fn start_state(&self) -> f32 {
            0.0
        }

        fn next_values(&self, state: &f32, input: Option<i64>) -> (f32, Option<f32>) {
            match input {
                Some(v) => (v as f32, Some((v as f32 + state) / 2.0)),
                None => (*state, None),
            }
        }

        fn done(&self, _state: &f32) -> bool {
            false
        }

        fn clone_state(&self, state: &f32) -> f32 {
            *state
        }
    }

    assert_eq!(
        &[5.0, 7.5, 3.5, 6.0],
        transduce(&Average2, &vec![10, 5, 2, 10]).as_slice()
    );
}

#[test]
fn sm_course_test_cascade() {
    assert_eq!(
        &[100, 10, 1, 0, 2, 0, 0, 3, 0, 0],
        transduce(
            &Cascade::new(delay(10i64), delay(100i64)),
            &vec![1, 0, 2, 0, 0, 3, 0, 0, 0, 4]
        )
        .as_slice()
    );
    assert_eq!(
        &[10, 100, 0, 0, 0, 0, 0],
        transduce(
            &Cascade::new(delay(100i64), delay(10i64)),
            &vec![0, 0, 0, 0, 0, 0, 1]
        )
        .as_slice()
    );
    assert_eq!(
        &[-1, 0, 1, 2, -3, 1],
        transduce(
            &Cascade::new(delay(0i64), delay(-1i64)),
            &vec![1, 2, -3, 1, 2, -3]
        )
        .as_slice()
    );
    assert_eq!(
        &['a', 'b', 'c', 'd', 'e', 'f', 'g'],
        transduce(
            &Cascade::new(delay('b'), delay('a')),
            &vec!['c', 'd', 'e', 'f', 'g', 'i', 'j']
        )
        .as_slice()
    );
}

#[test]
fn sm_course_test_parallel_x() {
    assert_eq!(
        &[2, 1, 3, 1, 1, 4, 1, 1, 1, 5],
        transduce(&make_incr(1), &vec![1, 0, 2, 0, 0, 3, 0, 0, 0, 4]).as_slice()
    );
    assert_eq!(
        &[
            (2, 3),
            (1, 2),
            (3, 4),
            (1, 2),
            (1, 2),
            (4, 5),
            (1, 2),
            (1, 2),
            (1, 2),
            (5, 6)
        ],
        transduce(
            &Parallel::new(make_incr(1), make_incr(2)),
            &vec![1, 0, 2, 0, 0, 3, 0, 0, 0, 4]
        )
        .as_slice()
    );
    assert_eq!(
        &[5, 3, 7, 3, 3, 9, 3, 3, 3, 11],
        transduce(
            &Cascade::new(Parallel::new(make_incr(1), make_incr(2)), Adder::new()),
            &vec![1, 0, 2, 0, 0, 3, 0, 0, 0, 4]
        )
        .as_slice()
    );
}

#[test]
fn sm_course_test_feedback() {
    assert_eq!(
        &[0, 1, 2, 3, 4, 5, 6, 7, 8, 9],
        transduce(
            &Feedback::new(Cascade::new(make_incr(1), delay(0i64))),
            &vec![0, 1, 2, 3, 4, 5, 6, 7, 8, 9]
        )
        .as_slice()
    );
    assert_eq!(
        &[0, 1, 2, 3, 4, 5, 6, 7, 8, 9],
        run(&Feedback::new(Cascade::new(make_incr(1), delay(0i64))), 10).as_slice()
    );
}

#[test]
fn sm_course_test_adder() {
    assert_eq!(
        &[4, 2, 0, -1],
        transduce(&Adder::new(), &vec![(1, 3), (0, 2), (0, 0), (3, -4)]).as_slice()
    );
}

#[test]
fn sm_course_test_fibo() {
    assert_eq!(
        &[1, 2, 3, 5, 8, 13, 21, 34, 55, 89],
        run(
            &Feedback::new(Cascade::new(
                Parallel::new(delay(1i64), Cascade::new(delay(1i64), delay(0i64))),
                Adder::new()
            )),
            10
        )
        .as_slice()
    );
    assert_eq!(
        &[1, 2, 3, 5, 8, 13, 21, 34, 55, 89],
        run(
            &Feedback::new(Cascade::new(
                Cascade::new(Parallel::new(delay(1i64), Gain::new(1)), Adder::new()),
                delay(1i64)
            )),
            10
        )
        .as_slice()
    );
}

#[test]
fn sm_course_test_double() {
    assert_eq!(
        &[1, 2, 4, 8, 16, 32, 64, 128, 256, 512, 1024],
        run(
            &Feedback::new(Cascade::new(
                Cascade::new(
                    Parallel::new(Constant::new(2), Gain::new(1)),
                    Multiplier::new()
                ),
                delay(1i64)
            )),
            11
        )
        .as_slice()
    );
    assert_eq!(
        &[1, 2, 4, 8, 16, 32, 64, 128, 256, 512, 1024],
        run(
            &Cascade::new(
                Constant::new(2),
                Feedback2::new(Cascade::new(Multiplier::new(), delay(1i64)))
            ),
            11
        )
        .as_slice()
    );
}

#[test]
fn sm_course_test_feedback_op() {
    assert_eq!(
        &[0, 0, 1, 3, 6, 10, 15, 21, 28, 36],
        transduce(
            &FeedbackOp::new(delay(0i64), Gain::new(1), AddOp),
            &vec![0, 1, 2, 3, 4, 5, 6, 7, 8, 9]
        )
        .as_slice()
    );

    let fac = FeedbackOp::new(delay(1i64), Gain::new(1), MulOp);
    let counter = FeedbackOp::new(delay(1i64), Gain::new(1), AddOp);
    assert_eq!(
        &[1, 1, 2, 6, 24, 120, 720, 5040, 40320, 362880, 3628800],
        transduce(
            &Cascade::new(counter, fac),
            &vec![1, 1, 1, 1, 1, 1, 1, 1, 1, 1, 1]
        )
        .as_slice()
    );
}

#[test]
fn test_parallel() {
    assert_eq!(
        &[2, 1, 3, 1, 1, 4, 1, 1, 1, 5],
        transduce(&make_incr(1), &vec![1, 0, 2, 0, 0, 3, 0, 0, 0, 4]).as_slice()
    );
    assert_eq!(
        &[
            (2, 3),
            (1, 2),
            (3, 4),
            (1, 2),
            (1, 2),
            (4, 5),
            (1, 2),
            (1, 2),
            (1, 2),
            (5, 6)
        ],
        transduce(
            &Parallel::new(make_incr(1), make_incr(2)),
            &vec![1, 0, 2, 0, 0, 3, 0, 0, 0, 4]
        )
        .as_slice()
    );
    assert_eq!(
        &[5, 3, 7, 3, 3, 9, 3, 3, 3, 11],
        transduce(
            &Cascade::new(Parallel::new(make_incr(1), make_incr(2)), Adder::new()),
            &vec![1, 0, 2, 0, 0, 3, 0, 0, 0, 4]
        )
        .as_slice()
    );
}

#[test]
fn test_switch() {
    assert_eq!(
        &[0, 3, 4, 9, 8, 15, 12, 21, 16, 27],
        transduce(
            &Switch::new(scale(2), scale(3), EvenPred),
            &vec![0, 1, 2, 3, 4, 5, 6, 7, 8, 9]
        )
        .as_slice()
    );
}

#[test]
fn test_mux() {
    assert_eq!(
        &[0, 3, 4, 9, 8, 15, 12, 21, 16, 27],
        transduce(
            &Mux::new(scale(2), scale(3), EvenPred),
            &vec![0, 1, 2, 3, 4, 5, 6, 7, 8, 9]
        )
        .as_slice()
    );
}

#[test]
fn test_mux_vs_switch() {
    assert_eq!(
        &[2, 5, 9, 200, 500, 900, 10, 12, 15],
        transduce(
            &Switch::new(Acc, Acc, Gt100),
            &vec![2, 3, 4, 200, 300, 400, 1, 2, 3]
        )
        .as_slice()
    );
    assert_eq!(
        &[2, 5, 9, 209, 509, 909, 910, 912, 915],
        transduce(
            &Mux::new(Acc, Acc, Gt100),
            &vec![2, 3, 4, 200, 300, 400, 1, 2, 3]
        )
        .as_slice()
    );
}

#[test]
fn test_if() {
    assert_eq!(
        &[0, 2, 4, 6, 8, 10, 12, 14, 16, 18],
        transduce(
            &If::new(scale(2), scale(3), EvenPred),
            &vec![0, 1, 2, 3, 4, 5, 6, 7, 8, 9]
        )
        .as_slice()
    );
    assert_eq!(
        &[0, 3, 6, 9, 12, 15, 18, 21, 24, 27],
        transduce(
            &If::new(scale(2), scale(3), OddPred),
            &vec![0, 1, 2, 3, 4, 5, 6, 7, 8, 9]
        )
        .as_slice()
    );
}

#[test]
fn test_consume_five() {
    let mut sm = StateFull::new(ConsumeFive);
    assert_eq!(sm.step(Some(1)), Some(None));
    assert_eq!(sm.is_done(), false);

    assert_eq!(sm.step(Some(1)), Some(None));
    assert_eq!(sm.is_done(), false);

    assert_eq!(sm.step(Some(1)), Some(None));
    assert_eq!(sm.is_done(), false);

    assert_eq!(sm.step(Some(1)), Some(None));
    assert_eq!(sm.is_done(), false);

    assert_eq!(sm.step(Some(1)), Some(Some(5)));
    assert_eq!(sm.is_done(), true);

    assert_eq!(sm.step(Some(1)), Some(Some(5)));
    assert_eq!(sm.is_done(), true);

    assert_eq!(
        &[None, None, None, None, Some(15)],
        transduce(&ConsumeFive, &vec![1, 2, 3, 4, 5, 6, 7, 8, 9]).as_slice()
    );
}

#[test]
fn test_repeat() {
    assert_eq!(
        &['a'],
        transduce(&CharMachine::<i64>::new('a'), &vec![0]).as_slice()
    );
    assert_eq!(
        &['a', 'a', 'a', 'a'],
        run(&Repeat::new(CharMachine::<i64>::new('a'), Some(4)), 10).as_slice()
    );
}

#[test]
fn test_repeat_until() {
    assert_eq!(
        &[
            None,
            None,
            None,
            None,
            Some(10),
            None,
            None,
            None,
            None,
            Some(35),
            None,
            None,
            None,
            None,
            Some(60)
        ],
        transduce(
            &RepeatUntil::new(ConsumeFive, Gt10),
            &vec![0, 1, 2, 3, 4, 5, 6, 7, 8, 9, 10, 11, 12, 13, 14, 15, 16, 17, 18, 19]
        )
        .as_slice()
    );
}

#[test]
fn test_until() {
    assert_eq!(
        &[None, None, None, None, Some(10)],
        transduce(
            &Until::new(ConsumeFive, Gt10),
            &vec![0, 1, 2, 3, 4, 5, 6, 7, 8, 9, 10, 11, 12, 13, 14, 15, 16, 17, 18, 19]
        )
        .as_slice()
    );
    assert_eq!(
        &[None, None, None],
        transduce(
            &Until::new(ConsumeFive, Eq2),
            &vec![0, 1, 2, 3, 4, 5, 6, 7, 8, 9, 10, 11, 12, 13, 14, 15, 16, 17, 18, 19]
        )
        .as_slice()
    );
    assert_eq!(
        &[
            None,
            None,
            None,
            None,
            Some(10),
            None,
            None,
            None,
            None,
            Some(35),
            None,
            None
        ],
        transduce(
            &Until::new(Repeat::new(ConsumeFive, None), Gt10),
            &vec![0, 1, 2, 3, 4, 5, 6, 7, 8, 9, 10, 11, 12, 13, 14, 15, 16, 17, 18, 19]
        )
        .as_slice()
    );
}

#[test]
fn test_seq() {
    assert_eq!(
        &['a', 'b', 'c'],
        run(
            &Chain::new(
                Chain::new(CharMachine::<i64>::new('a'), CharMachine::<i64>::new('b')),
                CharMachine::<i64>::new('c')
            ),
            10
        )
        .as_slice()
    );
    assert_eq!(
        &['h', 'e', 'l', 'l', 'o', 'h', 'e', 'l', 'l', 'o', 'h', 'e', 'l', 'l', 'o'],
        run(
            &Repeat::new(
                Chain::new(
                    Chain::new(
                        Chain::new(
                            Chain::new(CharMachine::<i64>::new('h'), CharMachine::<i64>::new('e')),
                            CharMachine::<i64>::new('l')
                        ),
                        CharMachine::<i64>::new('l')
                    ),
                    CharMachine::<i64>::new('o')
                ),
                Some(3)
            ),
            50
        )
        .as_slice()
    );
}

#[test]
fn exos() {
    struct MySm;

    impl StateMachine<i64, i64> for MySm {
        type State = (i64, i64);

        fn spec_start(&self) -> Self::State {
            unreachable!()
        }

        fn spec_next(&self, _state: Self::State, _input: Option<i64>) -> (Self::State, Option<i64>) {
            unreachable!()
        }

        fn spec_done(&self, _state: Self::State) -> bool {
            unreachable!()
        }

        fn start_state(&self) -> (i64, i64) {
            (0, 0)
        }

        fn next_values(&self, state: &(i64, i64), input: Option<i64>) -> ((i64, i64), Option<i64>) {
            match input {
                Some(v) => {
                    let (count, acc) = *state;
                    let out = acc + v;
                    if out >= 100 {
                        ((count + 1, 0), Some(out))
                    } else {
                        ((count, out), Some(out))
                    }
                }
                None => (*state, None),
            }
        }

        fn done(&self, state: &(i64, i64)) -> bool {
            state.0 >= 3
        }

        fn clone_state(&self, state: &(i64, i64)) -> (i64, i64) {
            *state
        }
    }

    assert_eq!(
        &[1, 3, 6, 106, 4, 13, 513, 51, 49, 106],
        transduce(
            &MySm,
            &vec![1, 2, 3, 100, 4, 9, 500, 51, -2, 57, 103, 1, 1, 1, 1, -10, 207, 3, 1]
        )
        .as_slice()
    );

    struct MyNewSm;

    impl StateMachine<i64, i64> for MyNewSm {
        type State = i64;

        fn spec_start(&self) -> Self::State {
            unreachable!()
        }

        fn spec_next(&self, _state: Self::State, _input: Option<i64>) -> (Self::State, Option<i64>) {
            unreachable!()
        }

        fn spec_done(&self, _state: Self::State) -> bool {
            unreachable!()
        }

        fn start_state(&self) -> i64 {
            0
        }

        fn next_values(&self, state: &i64, input: Option<i64>) -> (i64, Option<i64>) {
            match input {
                Some(v) => {
                    let out = *state + v;
                    (out, Some(out))
                }
                None => (*state, None),
            }
        }

        fn done(&self, state: &i64) -> bool {
            *state > 100
        }

        fn clone_state(&self, state: &i64) -> i64 {
            *state
        }
    }

    assert_eq!(
        &[1, 3, 6, 106, 4, 13, 513, 51, 49, 106],
        transduce(
            &Repeat::new(MyNewSm, Some(3)),
            &vec![1, 2, 3, 100, 4, 9, 500, 51, -2, 57, 103, 1, 1, 1, 1, -10, 207, 3, 1]
        )
        .as_slice()
    );
}

#[test]
fn cascade_associativity_outputs() {
    let inputs = vec![7, -2, 5, 0, 3, 9, -4, 1];
    let left = Cascade::new(
        Cascade::new(delay(1i64), delay(2i64)),
        delay(3i64),
    );
    let right = Cascade::new(
        delay(1i64),
        Cascade::new(delay(2i64), delay(3i64)),
    );
    assert_eq!(transduce(&left, &inputs), transduce(&right, &inputs));
    let left2 = Cascade::new(Cascade::new(make_incr(5), Acc), scale(2));
    let right2 = Cascade::new(make_incr(5), Cascade::new(Acc, scale(2)));
    assert_eq!(transduce(&left2, &inputs), transduce(&right2, &inputs));
}

#[test]
fn feedback_counts_from_seed() {
    assert_eq!(
        &[4, 7, 10, 13, 16],
        run(&Feedback::new(Cascade::new(make_incr(3), delay(4i64))), 5).as_slice()
    );
}

#[test]
fn wire_passes_through() {
    assert_eq!(
        &[3, -1, 0, 8],
        transduce(&wire::<i64>(), &vec![3, -1, 0, 8]).as_slice()
    );
}

#[test]
fn reset_restarts_from_start_state() {
    let mut stepper = StateFull::new(Acc);
    assert_eq!(stepper.step(Some(5)), Some(5));
    assert_eq!(stepper.step(Some(5)), Some(10));
    stepper.reset();
    assert_eq!(stepper.step(Some(5)), Some(5));
}
