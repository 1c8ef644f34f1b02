//! A line-search helper: evaluates an objective over a finite list of
//! candidates and keeps the value a caller-supplied comparison prefers.

use vstd::prelude::*;

verus! {

/// Evaluates `objective` on every candidate in `xs` and returns a pair of an
/// objective value and the candidate it came from, keeping the incumbent
/// whenever `is_best` rejects a challenger. The result is always one of the
/// candidates together with one of its objective values.
pub fn opt_over_line<X: Copy, Y: Copy, F: Fn(X) -> Y, P: Fn(Y, Y) -> bool>(
    objective: F,
    xs: &Vec<X>,
    is_best: P,
) -> (r: (Y, X))
    requires
        xs@.len() >= 1,
        forall|x: X| xs@.contains(x) ==> call_requires(objective, (x,)),
        forall|y1: Y, y2: Y| call_requires(is_best, (y1, y2)),
    ensures
        xs@.contains(r.1),
        call_ensures(objective, (r.1,), r.0),
{
    proof {
        assert(xs@.contains(xs@[0]));
    }
    let mut best_x = xs[0];
    let mut best_objective = objective(best_x);
    let mut i: usize = 1;
    while i < xs.len()
        invariant
            1 <= i <= xs@.len(),
            xs@.contains(best_x),
            call_ensures(objective, (best_x,), best_objective),
            forall|x: X| xs@.contains(x) ==> call_requires(objective, (x,)),
            forall|y1: Y, y2: Y| call_requires(is_best, (y1, y2)),
        decreases xs@.len() - i,
    {
        proof {
            assert(xs@.contains(xs@[i as int]));
        }
        let x = xs[i];
        let obj = objective(x);
        if is_best(obj, best_objective) {
            best_objective = obj;
            best_x = x;
        }
        i = i + 1;
    }
    (best_objective, best_x)
}

} // verus!
