use nrfind::find_root;
use nrfind::Fix;
use nrfind::RealNum;

// The function whose root is being determined: x^3 + x^2 + 1.
fn f(x: Fix) -> Fix {
    let x2 = x.mul(x);
    let x3 = x2.mul(x);
    x3.add(x2).add(Fix::from_int(1))
}

// The derivative of f: 3x^2 + 2x.
fn fd(x: Fix) -> Fix {
    let x2 = x.mul(x);
    x2.add(x2).add(x2).add(x.add(x))
}

#[test]
pub fn test_find_root_fails_with_precision() {
    find_root(f, fd, Fix::from_int(100), Fix::from_raw(1_000), 10).unwrap_err();
}

#[test]
pub fn test_find_root_finds_result_to_precision() {
    let precision = Fix::from_raw(100_000);
    let result = find_root(f, fd, Fix::from_int(100), precision, 18).unwrap();

    let actual = Fix::from_raw(-1_465_600);
    let difference = actual.sub(result).abs();
    assert!(difference.le(precision));
}

#[test]
pub fn test_find_root_converges_on_linear_function() {
    // x - 3 has the simple root 3 and derivative 1 everywhere, so from any
    // guess the very first correction step lands exactly on the root.
    let g = |x: Fix| x.sub(Fix::from_int(3));
    let gd = |_x: Fix| Fix::from_int(1);
    let precision = Fix::from_raw(100_000);
    let result = find_root(g, gd, Fix::from_int(10), precision, 5).unwrap();
    assert_eq!(result, Fix::from_int(3));
    let difference = result.sub(Fix::from_int(3)).abs();
    assert!(difference.le(precision));
}

#[test]
pub fn test_find_root_fails_on_too_small_budget() {
    // The first step from 10 has magnitude 7, well above the threshold, so a
    // budget of one iteration is exhausted without convergence; the failure
    // carries the candidate reached, which here is already the root.
    let g = |x: Fix| x.sub(Fix::from_int(3));
    let gd = |_x: Fix| Fix::from_int(1);
    let precision = Fix::from_raw(1_000);
    let result = find_root(g, gd, Fix::from_int(10), precision, 1);
    assert_eq!(result, Err(Fix::from_int(3)));
}

#[test]
pub fn test_find_root_budget_relaxation() {
    // With the same function, derivative, guess and threshold, a small budget
    // fails and a larger one succeeds: relaxing the budget is consistent.
    let precision = Fix::from_raw(100_000);
    let small = find_root(f, fd, Fix::from_int(100), precision, 10);
    let large = find_root(f, fd, Fix::from_int(100), precision, 18);
    assert!(small.is_err());
    assert!(large.is_ok());
}

#[test]
pub fn test_find_root_zero_budget_returns_guess() {
    let guess = Fix::from_int(7);
    let result = find_root(f, fd, guess, Fix::from_raw(100_000), 0);
    assert_eq!(result, Err(guess));
}
