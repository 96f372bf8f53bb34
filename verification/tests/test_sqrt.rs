use nrfind::find_sqrt;
use nrfind::Fix;
use nrfind::RealNum;

#[test]
pub fn test_find_sqrt_fails_when_out_of_iterations() {
    let radicand = Fix::from_raw(25_500_000);
    let precision = Fix::from_raw(1_000);
    let guess = Fix::from_int(100); // This guess is far away on purpose.
    let iterations = 3;
    assert!(find_sqrt(radicand, guess, precision, iterations).is_err());
}

#[test]
pub fn test_find_sqrt_finds_result_to_precision() {
    let radicand = Fix::from_raw(25_600_000);
    let precision = Fix::from_raw(100_000);
    let guess = Fix::from_int(5); // This is a fairly good guess.
    let iterations = 20;

    let result = find_sqrt(radicand, guess, precision, iterations).unwrap();
    let actual = Fix::from_raw(5_049_700);

    let difference = result.sub(actual).abs();
    println!("find_sqrt gave {} (delta {})", result.raw, difference.raw);
    assert!(difference.le(precision));
}

#[test]
pub fn test_find_sqrt_fails_for_negative_radicand() {
    // A negative radicand has no real square root: the correction step never
    // falls within the threshold and the budget runs out.
    let radicand = Fix::from_raw(-25_600_000);
    let precision = Fix::from_raw(100_000);
    let guess = Fix::from_int(10);
    let iterations = 100;
    assert!(find_sqrt(radicand, guess, precision, iterations).is_err());
}

#[test]
pub fn test_find_sqrt_close_guess_converges_in_one_step() {
    // From the guess 5 the first correction for sqrt(25.6) is
    // (25 - 25.6) / 10 = -0.06, within the threshold 0.1, so the call
    // converges immediately to exactly 5.06.
    let result = find_sqrt(
        Fix::from_raw(25_600_000),
        Fix::from_int(5),
        Fix::from_raw(100_000),
        20,
    );
    assert_eq!(result, Ok(Fix::from_raw(5_060_000)));
}
