use pi_series::factorial::FactorialCalculator;
use pi_series::series::PiError;
use pi_series::series::compute_pi;
use pi_series::series::convert_precision;

const PI_DIGITS: &str = "3.1415926535897932384626433832795028841971693993751058209749445923078164062862089986280348253421170679";

fn digits_of(s: &str) -> &str {
    match s.find('e') {
        Some(pos) => &s[..pos],
        None => s,
    }
}

fn common_prefix_len(a: &str, b: &str) -> usize {
    a.chars().zip(b.chars()).take_while(|(x, y)| x == y).count()
}

#[test]
fn zero_digits_is_invalid_precision() {
    assert_eq!(convert_precision(0), Err(PiError::InvalidPrecision));
    assert!(matches!(compute_pi(0, 1), Err(PiError::InvalidPrecision)));
}

#[test]
fn precision_plan_exact_values() {
    let p = convert_precision(1).unwrap();
    assert_eq!(p.term_count, 1);
    // floor(2 * log2(10)) and floor(1 * log2(10)), raised to the smallest
    // precision the arbitrary-precision collaborator accepts
    assert_eq!(p.working_prec, 64);
    assert_eq!(p.final_prec, 64);

    let p = convert_precision(50).unwrap();
    assert_eq!(p.term_count, 8);
    // floor(51 * log2(10)) and floor(50 * log2(10))
    assert_eq!(p.working_prec, 169);
    assert_eq!(p.final_prec, 166);

    // seven digits per term: one term up to 7 digits, two terms at 8
    assert_eq!(convert_precision(7).unwrap().term_count, 1);
    assert_eq!(convert_precision(8).unwrap().term_count, 2);
}

#[test]
fn factorial_cache_small_values() {
    let cache = FactorialCalculator::new(64, 6);
    let zero = cache.get(0).to_decimal_string();
    assert!(zero.starts_with("1."), "0! printed as {zero}");
    assert!(zero.contains("e+0"), "0! printed as {zero}");
    let five = cache.get(5).to_decimal_string();
    // 5! == 120
    assert!(five.starts_with("1.2"), "5! printed as {five}");
    assert!(five.contains("e+2"), "5! printed as {five}");
    let six = cache.get(6).to_decimal_string();
    // 6! == 720
    assert!(six.starts_with("7.2"), "6! printed as {six}");
    assert!(six.contains("e+2"), "6! printed as {six}");
}

#[test]
fn one_digit_begins_3_1() {
    let pi = compute_pi(1, 1).unwrap().to_decimal_string();
    assert!(pi.starts_with("3.1"), "got {pi}");
}

#[test]
fn single_term_value_matches_formula() {
    // one series term gives 9801 / (2206 * sqrt(2)) == 3.14159273001...
    let pi = compute_pi(1, 1).unwrap().to_decimal_string();
    assert!(pi.starts_with("3.14159273"), "got {pi}");
}

#[test]
fn fifty_digit_request_matches_reference_to_the_guard_margin() {
    // one guard digit absorbs the rounding accumulated over the summation,
    // so at least 49 of the 50 requested digits are correct
    let pi = compute_pi(50, 1).unwrap().to_decimal_string();
    assert!(
        pi.starts_with("3.1415926535897932384626433832795028841971693993751"),
        "got {pi}"
    );
}

#[test]
fn fifty_digits_agree_across_worker_counts() {
    let one = compute_pi(50, 1).unwrap().to_decimal_string();
    let four = compute_pi(50, 4).unwrap().to_decimal_string();
    // at least the first 49 digits (51 characters with "3.") agree
    assert!(common_prefix_len(digits_of(&one), digits_of(&four)) >= 51, "{one} vs {four}");
}

#[test]
fn seven_digits_two_workers_takes_fallback() {
    // 7 digits need a single term, so with two workers the engine must fall
    // back to the single-range path and give the one-worker answer exactly
    let two = compute_pi(7, 2).unwrap().to_decimal_string();
    let one = compute_pi(7, 1).unwrap().to_decimal_string();
    assert_eq!(two, one);
}

#[test]
fn identical_inputs_give_identical_output() {
    let first = compute_pi(30, 3).unwrap().to_decimal_string();
    let second = compute_pi(30, 3).unwrap().to_decimal_string();
    assert_eq!(first, second);
}

#[test]
fn more_digits_converge_further() {
    let mut previous_correct = 0;
    let mut previous_prefix = String::new();
    for d in [10u32, 30, 60] {
        let pi = compute_pi(d, 1).unwrap().to_decimal_string();
        let correct = common_prefix_len(digits_of(&pi), PI_DIGITS);
        assert!(correct > previous_correct, "digits {d}: {correct} vs {previous_correct}");
        assert!(correct >= d as usize + 2, "digits {d} gave only {correct} correct: {pi}");
        // the digits already converged on stay put as the request grows
        assert!(digits_of(&pi).starts_with(&previous_prefix), "digits {d} flapped: {pi}");
        previous_prefix = PI_DIGITS[..correct].to_string();
        previous_correct = correct;
    }
}

#[test]
fn final_precision_narrows_the_result() {
    // 19 requested digits narrow to one 64-bit word, 38 keep two words: the
    // closing trim must show in the printed digit count
    let narrow = compute_pi(19, 1).unwrap().to_decimal_string();
    let wide = compute_pi(38, 1).unwrap().to_decimal_string();
    let narrow_digits = digits_of(&narrow).len();
    let wide_digits = digits_of(&wide).len();
    assert!(narrow_digits < wide_digits, "{narrow} vs {wide}");
}
