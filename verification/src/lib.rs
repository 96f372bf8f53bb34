//! Root finding by the Newton-Raphson method.
//!
//! [`find_root`] iterates `x - f(x) / f'(x)` for a caller-supplied function
//! and derivative until the correction step is small enough or an iteration
//! budget runs out, and [`find_sqrt`] specializes it to square roots.  Both
//! are generic over any numeric representation implementing [`RealNum`];
//! [`Fix`] is a saturating fixed-point representation of that kind.

mod fixed;
mod numeric;
mod sqrt;

pub use fixed::Fix;
pub use fixed::BOUND;
pub use fixed::SCALE;
pub use numeric::RealNum;
pub use sqrt::find_sqrt;

use vstd::prelude::*;

verus! {

/// The outcome of a numeric search: `Ok` carries a result that passed the
/// convergence test, while `Err` carries the best candidate reached when the
/// iteration budget ran out.
pub type NumericSolutionResult<N> = Result<N, N>;

/// Whether every value `f` can return on input `x` equals `ff(x)`: the
/// executable function `f` behaves as the mathematical function `ff`.
pub open spec fn covers<N, F: Fn(N) -> N>(f: F, ff: spec_fn(N) -> N) -> bool {
    forall|x: N, r: N| #[trigger] call_ensures(f, (x,), r) ==> r == ff(x)
}

/// Whether `f` may be called on every input.
pub open spec fn callable_everywhere<N, F: Fn(N) -> N>(f: F) -> bool {
    forall|x: N| #[trigger] call_requires(f, (x,))
}

/// The Newton-Raphson correction step at `x`: `ff(x) / dd(x)`.
pub open spec fn deviation_of<N: RealNum>(ff: spec_fn(N) -> N, dd: spec_fn(N) -> N, x: N) -> N {
    ff(x).div_s(dd(x))
}

/// One Newton-Raphson update: `x - ff(x) / dd(x)`.
pub open spec fn step_of<N: RealNum>(ff: spec_fn(N) -> N, dd: spec_fn(N) -> N, x: N) -> N {
    x.sub_s(deviation_of(ff, dd, x))
}

/// The candidate reached after `k` Newton-Raphson updates from `x0`.
pub open spec fn iterate<N: RealNum>(
    ff: spec_fn(N) -> N,
    dd: spec_fn(N) -> N,
    x0: N,
    k: nat,
) -> N
    decreases k,
{
    if k == 0 {
        x0
    } else {
        step_of(ff, dd, iterate(ff, dd, x0, (k - 1) as nat))
    }
}

/// Whether the convergence test passes at candidate `x`: the magnitude of the
/// correction step is at most `err`.
pub open spec fn converged_at<N: RealNum>(
    ff: spec_fn(N) -> N,
    dd: spec_fn(N) -> N,
    err: N,
    x: N,
) -> bool {
    deviation_of(ff, dd, x).abs_s().le_s(err)
}

/// What the root finder returns for the mathematical function `ff` with
/// derivative `dd`, starting from `x0` with threshold `err` and a budget of
/// `n` iterations: success with the update made at the first convergent
/// candidate, or, when no candidate within the budget passes the test,
/// failure carrying the candidate reached after the full budget.
pub open spec fn newton_outcome<N: RealNum>(
    ff: spec_fn(N) -> N,
    dd: spec_fn(N) -> N,
    x0: N,
    err: N,
    n: nat,
    r: NumericSolutionResult<N>,
) -> bool {
    match r {
        Ok(v) => exists|i: nat|
            i < n && #[trigger] converged_at(ff, dd, err, iterate(ff, dd, x0, i)) && (forall|j: nat|
                j < i ==> !converged_at(ff, dd, err, iterate(ff, dd, x0, j))) && v == iterate(
                ff,
                dd,
                x0,
                (i + 1) as nat,
            ),
        Err(v) => (forall|i: nat| i < n ==> !converged_at(ff, dd, err, iterate(ff, dd, x0, i)))
            && v == iterate(ff, dd, x0, n),
    }
}

/// What [`find_root`] promises of its result `r`: for every pair of
/// mathematical functions that `f` and `d` behave as, `r` is the
/// Newton-Raphson outcome of those functions.
pub open spec fn find_root_post<N: RealNum, F: Fn(N) -> N, D: Fn(N) -> N>(
    f: F,
    d: D,
    x0: N,
    err: N,
    n: nat,
    r: NumericSolutionResult<N>,
) -> bool {
    forall|ff: spec_fn(N) -> N, dd: spec_fn(N) -> N|
        #[trigger] covers(f, ff) && #[trigger] covers(d, dd) ==> newton_outcome(
            ff,
            dd,
            x0,
            err,
            n,
            r,
        )
}

/// The loop state after `k` iterations: `cur` is the `k`-th candidate and no
/// earlier candidate passed the convergence test.
spec fn prefix_unconverged<N: RealNum>(
    ff: spec_fn(N) -> N,
    dd: spec_fn(N) -> N,
    x0: N,
    err: N,
    k: nat,
    cur: N,
) -> bool {
    cur == iterate(ff, dd, x0, k) && (forall|j: nat|
        j < k ==> !converged_at(ff, dd, err, iterate(ff, dd, x0, j)))
}

/// Uses the Newton-Raphson method to find a root of `function`, given that
/// `derivative` is its first derivative.
///
/// Starting from `x0`, each iteration computes the correction step
/// `function(x) / derivative(x)` and subtracts it from the candidate.  As
/// soon as the magnitude of the step is at most `acceptable_err`, the updated
/// candidate is returned as `Ok`.  If `max_iterations` pass without the test
/// succeeding, the last candidate is returned as `Err`, so callers keep the
/// best estimate reached.
///
/// `function` and `derivative` must be pure: every result they can return on
/// an input must be the one value a mathematical function assigns to it.  The
/// contract speaks of those mathematical functions; for impure arguments it
/// promises nothing.
#[verifier::loop_isolation(false)]
pub fn find_root<N: RealNum, F: Fn(N) -> N, D: Fn(N) -> N>(
    function: F,
    derivative: D,
    x0: N,
    acceptable_err: N,
    max_iterations: i32,
) -> (result: NumericSolutionResult<N>)
    requires
        callable_everywhere(function),
        callable_everywhere(derivative),
        max_iterations >= 0,
    ensures
        find_root_post(function, derivative, x0, acceptable_err, max_iterations as nat, result),
{
    let mut current_x: N = x0;
    let mut k: i32 = 0;
    while k < max_iterations
        invariant
            0 <= k <= max_iterations,
            forall|ff: spec_fn(N) -> N, dd: spec_fn(N) -> N|
                #[trigger] covers(function, ff) && #[trigger] covers(derivative, dd)
                    ==> prefix_unconverged(ff, dd, x0, acceptable_err, k as nat, current_x),
        decreases max_iterations - k,
    {
        let fv = function(current_x);
        let dv = derivative(current_x);
        let deviation = fv.div(dv);
        let next_x = current_x.sub(deviation);
        let done = deviation.abs().le(acceptable_err);
        proof {
            assert forall|ff: spec_fn(N) -> N, dd: spec_fn(N) -> N|
                #[trigger] covers(function, ff) && #[trigger] covers(derivative, dd) implies {
                &&& deviation == deviation_of(ff, dd, iterate(ff, dd, x0, k as nat))
                &&& next_x == iterate(ff, dd, x0, (k + 1) as nat)
                &&& done == converged_at(ff, dd, acceptable_err, iterate(ff, dd, x0, k as nat))
            } by {
                assert(fv == ff(current_x));
                assert(dv == dd(current_x));
            }
        }
        if done {
            proof {
                assert forall|ff: spec_fn(N) -> N, dd: spec_fn(N) -> N|
                    #[trigger] covers(function, ff) && #[trigger] covers(derivative, dd)
                        implies newton_outcome(
                    ff,
                    dd,
                    x0,
                    acceptable_err,
                    max_iterations as nat,
                    Ok(next_x),
                ) by {
                    let i = k as nat;
                    assert(converged_at(ff, dd, acceptable_err, iterate(ff, dd, x0, i)));
                    assert(next_x == iterate(ff, dd, x0, (i + 1) as nat));
                }
            }
            return Ok(next_x);
        }
        current_x = next_x;
        k = k + 1;
    }
    Err(current_x)
}

/// Convergence: when some candidate within the iteration budget passes the
/// convergence test, the root finder must report success, and the value it
/// returns is the update made at the first convergent candidate — a candidate
/// whose correction step has magnitude at most `err`.
pub proof fn lemma_convergence<N: RealNum>(
    ff: spec_fn(N) -> N,
    dd: spec_fn(N) -> N,
    x0: N,
    err: N,
    n: nat,
    r: NumericSolutionResult<N>,
)
    requires
        newton_outcome(ff, dd, x0, err, n, r),
        exists|i: nat| i < n && #[trigger] converged_at(ff, dd, err, iterate(ff, dd, x0, i)),
    ensures
        r is Ok,
        exists|i: nat|
            i < n && #[trigger] converged_at(ff, dd, err, iterate(ff, dd, x0, i)) && (forall|
                j: nat,
            | j < i ==> !converged_at(ff, dd, err, iterate(ff, dd, x0, j))) && r == Result::<
                N,
                N,
            >::Ok(iterate(ff, dd, x0, (i + 1) as nat)) && deviation_of(
                ff,
                dd,
                iterate(ff, dd, x0, i),
            ).abs_s().le_s(err),
{
    match r {
        Ok(v) => {},
        Err(v) => {
            let i = choose|i: nat|
                i < n && #[trigger] converged_at(ff, dd, err, iterate(ff, dd, x0, i));
            assert(!converged_at(ff, dd, err, iterate(ff, dd, x0, i)));
        },
    }
}

/// Non-convergence: when no candidate within the iteration budget passes the
/// convergence test, the root finder must report failure, carrying the
/// candidate reached after the full budget.
pub proof fn lemma_non_convergence<N: RealNum>(
    ff: spec_fn(N) -> N,
    dd: spec_fn(N) -> N,
    x0: N,
    err: N,
    n: nat,
    r: NumericSolutionResult<N>,
)
    requires
        newton_outcome(ff, dd, x0, err, n, r),
        forall|i: nat| i < n ==> !converged_at(ff, dd, err, iterate(ff, dd, x0, i)),
    ensures
        r == Result::<N, N>::Err(iterate(ff, dd, x0, n)),
{
    match r {
        Ok(v) => {
            let i = choose|i: nat|
                i < n && #[trigger] converged_at(ff, dd, err, iterate(ff, dd, x0, i));
            assert(!converged_at(ff, dd, err, iterate(ff, dd, x0, i)));
        },
        Err(v) => {},
    }
}

/// Budget relaxation: for a fixed function, derivative, guess and threshold,
/// a failure with budget `n` and a success with budget `m` are consistent
/// exactly as expected — the successful run converged at a candidate no
/// earlier than `n`, so `m` must exceed `n`, and each result is the one the
/// iteration determines.
pub proof fn lemma_budget_relaxation<N: RealNum>(
    ff: spec_fn(N) -> N,
    dd: spec_fn(N) -> N,
    x0: N,
    err: N,
    n: nat,
    m: nat,
    ra: NumericSolutionResult<N>,
    rb: NumericSolutionResult<N>,
)
    requires
        newton_outcome(ff, dd, x0, err, n, ra),
        ra is Err,
        newton_outcome(ff, dd, x0, err, m, rb),
        rb is Ok,
    ensures
        n < m,
        ra == Result::<N, N>::Err(iterate(ff, dd, x0, n)),
        exists|i: nat|
            n <= i < m && #[trigger] converged_at(ff, dd, err, iterate(ff, dd, x0, i)) && rb
                == Result::<N, N>::Ok(iterate(ff, dd, x0, (i + 1) as nat)),
{
    let i = choose|i: nat|
        i < m && #[trigger] converged_at(ff, dd, err, iterate(ff, dd, x0, i)) && (forall|j: nat|
            j < i ==> !converged_at(ff, dd, err, iterate(ff, dd, x0, j))) && rb->Ok_0 == iterate(
            ff,
            dd,
            x0,
            (i + 1) as nat,
        );
    assert(i >= n) by {
        if i < n {
            assert(!converged_at(ff, dd, err, iterate(ff, dd, x0, i)));
        }
    }
    assert(n <= i < m && converged_at(ff, dd, err, iterate(ff, dd, x0, i)) && rb == Result::<
        N,
        N,
    >::Ok(iterate(ff, dd, x0, (i + 1) as nat)));
}

/// The contract pins the outcome: two results that the Newton-Raphson
/// outcome admits for the same inputs and budget are equal.
pub proof fn lemma_outcome_unique<N: RealNum>(
    ff: spec_fn(N) -> N,
    dd: spec_fn(N) -> N,
    x0: N,
    err: N,
    n: nat,
    ra: NumericSolutionResult<N>,
    rb: NumericSolutionResult<N>,
)
    requires
        newton_outcome(ff, dd, x0, err, n, ra),
        newton_outcome(ff, dd, x0, err, n, rb),
    ensures
        ra == rb,
{
    match ra {
        Ok(va) => {
            let ia = choose|i: nat|
                i < n && #[trigger] converged_at(ff, dd, err, iterate(ff, dd, x0, i)) && (forall|
                    j: nat,
                | j < i ==> !converged_at(ff, dd, err, iterate(ff, dd, x0, j))) && va == iterate(
                    ff,
                    dd,
                    x0,
                    (i + 1) as nat,
                );
            match rb {
                Ok(vb) => {
                    let ib = choose|i: nat|
                        i < n && #[trigger] converged_at(ff, dd, err, iterate(ff, dd, x0, i)) && (
                        forall|j: nat|
                            j < i ==> !converged_at(ff, dd, err, iterate(ff, dd, x0, j))) && vb
                            == iterate(ff, dd, x0, (i + 1) as nat);
                    assert(ia == ib) by {
                        if ia < ib {
                            assert(!converged_at(ff, dd, err, iterate(ff, dd, x0, ia)));
                        }
                        if ib < ia {
                            assert(!converged_at(ff, dd, err, iterate(ff, dd, x0, ib)));
                        }
                    }
                },
                Err(vb) => {
                    assert(!converged_at(ff, dd, err, iterate(ff, dd, x0, ia)));
                },
            }
        },
        Err(va) => {
            match rb {
                Ok(vb) => {
                    let ib = choose|i: nat|
                        i < n && #[trigger] converged_at(ff, dd, err, iterate(ff, dd, x0, i)) && (
                        forall|j: nat|
                            j < i ==> !converged_at(ff, dd, err, iterate(ff, dd, x0, j))) && vb
                            == iterate(ff, dd, x0, (i + 1) as nat);
                    assert(!converged_at(ff, dd, err, iterate(ff, dd, x0, ib)));
                },
                Err(vb) => {},
            }
        },
    }
}


} // verus!
