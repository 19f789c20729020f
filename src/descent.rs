//! The iteration scheme of batch gradient descent, independent of the
//! arithmetic of one step.
use vstd::prelude::*;

verus! {

/// `states` and `costs` record a run of `step` from `start`: each step turns
/// `states[k]` into the cost `costs[k]` and the next parameters
/// `states[k + 1]`.
pub open spec fn is_descent_run<P, C, F: Fn(P) -> (C, P)>(
    step: F,
    start: P,
    costs: Seq<C>,
    states: Seq<P>,
) -> bool {
    &&& states.len() == costs.len() + 1
    &&& states[0] == start
    &&& forall|k: int|
        0 <= k < costs.len() ==> #[trigger] step.ensures((states[k],), (costs[k], states[k + 1]))
}

/// Runs exactly `iterations` steps of `step` from the parameters `start`,
/// with no early stop, and returns the cost of every step in order together
/// with the final parameters.
pub fn iterate_descent<P, C, F: Fn(P) -> (C, P)>(start: P, iterations: usize, step: F) -> (r: (
    Vec<C>,
    P,
))
    requires
        forall|p: P| #[trigger] step.requires((p,)),
    ensures
        r.0@.len() == iterations,
        exists|states: Seq<P>| #[trigger]
            is_descent_run(step, start, r.0@, states) && states.last() == r.1,
{
    let mut costs: Vec<C> = Vec::new();
    let mut params = start;
    let ghost mut states: Seq<P> = seq![start];
    let mut i: usize = 0;
    while i < iterations
        invariant
            forall|p: P| #[trigger] step.requires((p,)),
            i <= iterations,
            costs@.len() == i,
            is_descent_run(step, start, costs@, states),
            states.last() == params,
        decreases iterations - i,
    {
        let (cost, next) = step(params);
        proof {
            assert(states[i as int] == states.last());
            states = states.push(next);
        }
        costs.push(cost);
        params = next;
        i = i + 1;
        assert forall|k: int| 0 <= k < costs@.len() implies #[trigger] step.ensures(
            (states[k],),
            (costs@[k], states[k + 1]),
        ) by {
            if k < i - 1 {
                assert(states[k] == states.drop_last()[k]);
            }
        }
    }
    (costs, params)
}

/// With no iteration, the run records no cost and leaves the parameters as
/// they were.
pub proof fn lemma_zero_iterations<P, C, F: Fn(P) -> (C, P)>(
    step: F,
    start: P,
    costs: Seq<C>,
    states: Seq<P>,
)
    requires
        is_descent_run(step, start, costs, states),
        costs.len() == 0,
    ensures
        states.last() == start,
{
}

/// A run adds no randomness of its own: when each step's outcome is
/// determined by its input, two runs of the same length from the same start
/// record the same costs and pass through the same parameters.
pub proof fn lemma_runs_are_deterministic<P, C, F: Fn(P) -> (C, P)>(
    step: F,
    start: P,
    costs1: Seq<C>,
    states1: Seq<P>,
    costs2: Seq<C>,
    states2: Seq<P>,
)
    requires
        forall|p: P, a: (C, P), b: (C, P)|
            step.ensures((p,), a) && step.ensures((p,), b) ==> a == b,
        is_descent_run(step, start, costs1, states1),
        is_descent_run(step, start, costs2, states2),
        costs1.len() == costs2.len(),
    ensures
        costs1 == costs2,
        states1 == states2,
{
    let n = costs1.len() as int;
    assert forall|k: int| 0 <= k < n implies #[trigger] costs1[k] == costs2[k] by {
        lemma_runs_agree_up_to(step, start, costs1, states1, costs2, states2, k);
    }
    assert forall|k: int| 0 <= k <= n implies #[trigger] states1[k] == states2[k] by {
        lemma_runs_agree_up_to(step, start, costs1, states1, costs2, states2, k);
    }
    assert(costs1 =~= costs2);
    assert(states1 =~= states2);
}

proof fn lemma_runs_agree_up_to<P, C, F: Fn(P) -> (C, P)>(
    step: F,
    start: P,
    costs1: Seq<C>,
    states1: Seq<P>,
    costs2: Seq<C>,
    states2: Seq<P>,
    k: int,
)
    requires
        forall|p: P, a: (C, P), b: (C, P)|
            step.ensures((p,), a) && step.ensures((p,), b) ==> a == b,
        is_descent_run(step, start, costs1, states1),
        is_descent_run(step, start, costs2, states2),
        costs1.len() == costs2.len(),
        0 <= k <= costs1.len(),
    ensures
        states1[k] == states2[k],
        k < costs1.len() ==> costs1[k] == costs2[k],
    decreases k,
{
    if k > 0 {
        let j = k - 1;
        lemma_runs_agree_up_to(step, start, costs1, states1, costs2, states2, j);
        assert(step.ensures((states1[j],), (costs1[j], states1[j + 1])));
        assert(step.ensures((states2[j],), (costs2[j], states2[j + 1])));
    }
    if k < costs1.len() {
        assert(step.ensures((states1[k],), (costs1[k], states1[k + 1])));
        assert(step.ensures((states2[k],), (costs2[k], states2[k + 1])));
    }
}

} // verus!
