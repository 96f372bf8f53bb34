use vstd::prelude::*;

use crate::find_root;
use crate::newton_outcome;
use crate::numeric::RealNum;
use crate::NumericSolutionResult;

verus! {

/// The function whose root is the square root of `radicand`:
/// `x * x - radicand`.
pub open spec fn sqrt_fun<N: RealNum>(radicand: N) -> spec_fn(N) -> N {
    |x: N| x.mul_s(x).sub_s(radicand)
}

/// Its derivative `2x`, written `x + x` so that no constant of the numeric
/// representation is needed.
pub open spec fn sqrt_der<N: RealNum>() -> spec_fn(N) -> N {
    |x: N| x.add_s(x)
}

/// Finds the square root of `radicand` to within `acceptable_err` by the
/// Newton-Raphson method, starting from the guess `x0`.
///
/// This delegates to [`find_root`] with the function `x * x - radicand` and
/// its derivative `2x`.  Success returns the converged approximation as `Ok`;
/// if `max_iterations` pass without the convergence test succeeding — as
/// happens for a negative `radicand`, which has no real square root — the
/// last candidate is returned as `Err`.
pub fn find_sqrt<N: RealNum>(
    radicand: N,
    x0: N,
    acceptable_err: N,
    max_iterations: i32,
) -> (result: NumericSolutionResult<N>)
    requires
        max_iterations >= 0,
    ensures
        newton_outcome(
            sqrt_fun(radicand),
            sqrt_der::<N>(),
            x0,
            acceptable_err,
            max_iterations as nat,
            result,
        ),
{
    let f = |x: N| -> (r: N)
        ensures
            r == sqrt_fun(radicand)(x),
        { x.mul(x).sub(radicand) };
    let fd = |x: N| -> (r: N)
        ensures
            r == sqrt_der::<N>()(x),
        { x.add(x) };
    let result = find_root(f, fd, x0, acceptable_err, max_iterations);
    proof {
        assert(crate::covers(f, sqrt_fun(radicand)));
        assert(crate::covers(fd, sqrt_der::<N>()));
    }
    result
}

} // verus!
