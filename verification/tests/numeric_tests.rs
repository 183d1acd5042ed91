use sched_sim::numeric::{
    attempts_needed, check_guess, fizz_buzz, is_even, largest_of, sum_of, FizzBuzz,
};

#[test]
fn parity_of_small_numbers() {
    assert!(is_even(10));
    assert!(!is_even(15));
    assert!(is_even(0));
    assert!(!is_even(-3));
    assert!(is_even(-4));
    // parity alternates
    for n in -5..5 {
        assert_ne!(is_even(n), is_even(n + 1));
    }
}

#[test]
fn guesses_compare_with_secret() {
    assert_eq!(check_guess(13, 13), 0);
    assert_eq!(check_guess(20, 13), 1);
    assert_eq!(check_guess(12, 13), -1);
    assert_eq!(check_guess(i32::MIN, i32::MAX), -1);
}

#[test]
fn guess_comparison_is_antisymmetric() {
    for (g, s) in [(1, 2), (5, 5), (-7, 3), (100, -100)] {
        assert_eq!(check_guess(g, s), -check_guess(s, g));
    }
}

#[test]
fn fizz_buzz_classes() {
    assert_eq!(fizz_buzz(15), FizzBuzz::FizzBuzz);
    assert_eq!(fizz_buzz(45), FizzBuzz::FizzBuzz);
    assert_eq!(fizz_buzz(0), FizzBuzz::FizzBuzz);
    assert_eq!(fizz_buzz(9), FizzBuzz::Fizz);
    assert_eq!(fizz_buzz(10), FizzBuzz::Buzz);
    assert_eq!(fizz_buzz(-25), FizzBuzz::Buzz);
    assert_eq!(fizz_buzz(7), FizzBuzz::Neither);
}

#[test]
fn classes_of_the_assignment_array() {
    let arr: [i32; 10] = [10, 15, 25, 40, 65, 105, 180, 285, 465, 750];
    let classes: Vec<FizzBuzz> = arr.iter().map(|n| fizz_buzz(*n)).collect();
    assert_eq!(
        classes,
        vec![
            FizzBuzz::Buzz,
            FizzBuzz::FizzBuzz,
            FizzBuzz::Buzz,
            FizzBuzz::Buzz,
            FizzBuzz::Buzz,
            FizzBuzz::FizzBuzz,
            FizzBuzz::FizzBuzz,
            FizzBuzz::FizzBuzz,
            FizzBuzz::FizzBuzz,
            FizzBuzz::FizzBuzz,
        ]
    );
    let evens: Vec<bool> = arr.iter().map(|n| is_even(*n)).collect();
    assert_eq!(evens, vec![true, false, false, true, false, false, true, false, false, true]);
}

#[test]
fn sum_and_largest_of_the_assignment_array() {
    let arr: [i32; 10] = [10, 15, 25, 40, 65, 105, 180, 285, 465, 750];
    assert_eq!(sum_of(&arr), Some(1940));
    assert_eq!(largest_of(&arr), Some(750));
}

#[test]
fn sum_and_largest_edge_cases() {
    assert_eq!(sum_of(&[]), Some(0));
    assert_eq!(sum_of(&[-5, 5, i32::MAX, -1]), Some(i32::MAX - 1));
    assert_eq!(largest_of(&[-3]), Some(-3));
    assert_eq!(largest_of(&[-3, -9, -1, -7]), Some(-1));
    assert_eq!(largest_of(&[4, 4, 4]), Some(4));
    assert_eq!(largest_of(&[]), None);
}

#[test]
fn attempts_of_the_assignment_game() {
    // 20, 18, 16, 14, 12, 13
    assert_eq!(attempts_needed(13, 20), Some(6));
}

#[test]
fn attempts_closed_form_cases() {
    assert_eq!(attempts_needed(5, 5), Some(1));
    // from below, one step up at a time
    assert_eq!(attempts_needed(5, 1), Some(5));
    // from above by an even distance: 9, 7, 5
    assert_eq!(attempts_needed(5, 9), Some(3));
    // from above by an odd distance: 8, 6, 4, 5
    assert_eq!(attempts_needed(5, 8), Some(4));
    assert_eq!(attempts_needed(-10, 10), Some(11));
}

#[test]
fn sums_that_overflow_are_refused() {
    // a partial sum leaves i32 even though the total would fit
    assert_eq!(sum_of(&[i32::MAX, 1, -1]), None);
    assert_eq!(sum_of(&[i32::MIN, -1]), None);
    assert_eq!(sum_of(&[i32::MIN]), Some(i32::MIN));
}

#[test]
fn searches_that_leave_i32_are_refused() {
    // the count would not fit in an i32
    assert_eq!(attempts_needed(i32::MAX, i32::MIN), None);
    assert_eq!(attempts_needed(-1, i32::MIN), None);
    // an odd distance from above overshoots below the secret by one
    assert_eq!(attempts_needed(i32::MIN, i32::MIN + 1), None);
    assert_eq!(attempts_needed(i32::MIN, i32::MIN + 2), Some(2));
    assert_eq!(attempts_needed(i32::MIN + 1, i32::MIN + 2), Some(3));
}
