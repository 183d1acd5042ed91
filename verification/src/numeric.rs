//! Small numeric routines: parity, FizzBuzz classes, sums and maxima of
//! arrays, and the number of attempts a fixed guessing strategy needs.

use vstd::prelude::*;

verus! {

/// Whether `n` is even.
pub fn is_even(n: i32) -> (b: bool)
    ensures
        b == (n % 2 == 0),
{
    n % 2 == 0
}

/// Consecutive numbers have opposite parity.
pub proof fn lemma_parity_alternates(n: int)
    ensures
        (n % 2 == 0) != ((n + 1) % 2 == 0),
{
}

/// How a guess compares with the secret: 0 when equal, 1 when too high,
/// -1 when too low.
pub open spec fn guess_result(guess: int, secret: int) -> int {
    if guess == secret {
        0
    } else if guess > secret {
        1
    } else {
        -1
    }
}

/// Compares `guess` with `secret`: 0 when they are equal, 1 when the guess is
/// too high, -1 when it is too low.
pub fn check_guess(guess: i32, secret: i32) -> (r: i32)
    ensures
        r == guess_result(guess as int, secret as int),
        guess == secret ==> r == 0,
        guess > secret ==> r == 1,
        guess < secret ==> r == -1,
{
    if guess == secret {
        return 0;
    }
    if guess > secret {
        return 1;
    } else {
        return -1;
    }
}

/// Swapping guess and secret flips the answer, and the answer is 0 exactly
/// when they are equal.
pub proof fn lemma_guess_result_antisymmetric(guess: int, secret: int)
    ensures
        guess_result(guess, secret) == -guess_result(secret, guess),
        guess_result(guess, secret) == 0 <==> guess == secret,
{
}

/// The FizzBuzz class of a number.
#[derive(Debug, Clone, Copy, PartialEq, Eq, Structural)]
pub enum FizzBuzz {
    /// Divisible by both 3 and 5.
    FizzBuzz,
    /// Divisible by 3 only.
    Fizz,
    /// Divisible by 5 only.
    Buzz,
    /// Divisible by neither.
    Neither,
}

/// The class of `n`: FizzBuzz when 3 and 5 divide it, else Fizz when 3
/// does, else Buzz when 5 does, else neither.
pub open spec fn fizz_buzz_class(n: int) -> FizzBuzz {
    if n % 3 == 0 && n % 5 == 0 {
        FizzBuzz::FizzBuzz
    } else if n % 3 == 0 {
        FizzBuzz::Fizz
    } else if n % 5 == 0 {
        FizzBuzz::Buzz
    } else {
        FizzBuzz::Neither
    }
}

/// A number is FizzBuzz exactly when 15 divides it, Fizz when 3 divides it
/// and 5 does not, Buzz when 5 divides it and 3 does not, and neither when
/// neither divides it.
pub proof fn lemma_fizz_buzz_by_divisors(n: int)
    ensures
        n % 15 == 0 <==> fizz_buzz_class(n) == FizzBuzz::FizzBuzz,
        n % 3 == 0 && n % 5 != 0 <==> fizz_buzz_class(n) == FizzBuzz::Fizz,
        n % 5 == 0 && n % 3 != 0 <==> fizz_buzz_class(n) == FizzBuzz::Buzz,
        n % 3 != 0 && n % 5 != 0 <==> fizz_buzz_class(n) == FizzBuzz::Neither,
{
    assert(n % 15 == 0 <==> (n % 3 == 0 && n % 5 == 0)) by {
        let q = n / 15;
        let r = n % 15;
        vstd::arithmetic::div_mod::lemma_fundamental_div_mod(n, 15);
        assert(n == 15 * q + r);
        assert(0 <= r < 15);
        assert(n % 3 == r % 3) by {
            vstd::arithmetic::div_mod::lemma_mod_multiples_vanish(5 * q, r, 3);
            assert(15 * q + r == 3 * (5 * q) + r);
        }
        assert(n % 5 == r % 5) by {
            vstd::arithmetic::div_mod::lemma_mod_multiples_vanish(3 * q, r, 5);
            assert(15 * q + r == 5 * (3 * q) + r);
        }
    }
}

/// Classifies `n` for FizzBuzz.
pub fn fizz_buzz(n: i32) -> (c: FizzBuzz)
    ensures
        c == fizz_buzz_class(n as int),
        n % 3 == 0 && n % 5 != 0 ==> c == FizzBuzz::Fizz,
        n % 5 == 0 && n % 3 != 0 ==> c == FizzBuzz::Buzz,
        n % 15 == 0 ==> c == FizzBuzz::FizzBuzz,
        n % 3 != 0 && n % 5 != 0 ==> c == FizzBuzz::Neither,
{
    proof {
        lemma_fizz_buzz_by_divisors(n as int);
    }
    if n % 5 == 0 && n % 3 == 0 {
        FizzBuzz::FizzBuzz
    } else if n % 3 == 0 {
        FizzBuzz::Fizz
    } else if n % 5 == 0 {
        FizzBuzz::Buzz
    } else {
        FizzBuzz::Neither
    }
}

/// The sum of `s`.
pub open spec fn seq_sum(s: Seq<i32>) -> int
    decreases s.len(),
{
    if s.len() == 0 {
        0
    } else {
        seq_sum(s.drop_last()) + s.last()
    }
}

/// Adding up `s` from the front never leaves the range of `i32`.
pub open spec fn prefix_sums_fit(s: Seq<i32>) -> bool {
    forall|k: int| 0 <= k <= s.len() ==> i32::MIN <= #[trigger] seq_sum(s.take(k)) <= i32::MAX
}

/// Sums split over concatenation: the sum of `a` followed by `b` is the sum
/// of `a` plus the sum of `b`; the sum of nothing is 0 and of one value that
/// value.
pub proof fn lemma_seq_sum_concat(a: Seq<i32>, b: Seq<i32>)
    ensures
        seq_sum(a + b) == seq_sum(a) + seq_sum(b),
        seq_sum(Seq::<i32>::empty()) == 0,
        b.len() == 1 ==> seq_sum(b) == b[0],
    decreases b.len(),
{
    if b.len() == 1 {
        assert(b.drop_last() =~= Seq::<i32>::empty());
    }
    if b.len() > 0 {
        lemma_seq_sum_concat(a, b.drop_last());
        assert((a + b).drop_last() =~= a + b.drop_last());
    } else {
        assert(a + b =~= a);
    }
}

/// Values that are none of them negative and whose total fits add up without
/// ever leaving `i32`.
pub proof fn lemma_nonnegative_sums_fit(s: Seq<i32>)
    requires
        forall|i: int| 0 <= i < s.len() ==> s[i] >= 0,
        seq_sum(s) <= i32::MAX,
    ensures
        prefix_sums_fit(s),
{
    assert forall|k: int| 0 <= k <= s.len() implies i32::MIN <= #[trigger] seq_sum(s.take(k)) <= i32::MAX by {
        let t = s.skip(k);
        assert(s =~= s.take(k) + t);
        lemma_seq_sum_concat(s.take(k), t);
        lemma_seq_sum_nonnegative(s.take(k));
        lemma_seq_sum_nonnegative(t);
    }
}

proof fn lemma_seq_sum_nonnegative(s: Seq<i32>)
    requires
        forall|i: int| 0 <= i < s.len() ==> s[i] >= 0,
    ensures
        seq_sum(s) >= 0,
    decreases s.len(),
{
    if s.len() > 0 {
        lemma_seq_sum_nonnegative(s.drop_last());
    }
}

/// The sum of `values`, added from the front; `None` when a partial sum
/// leaves the range of `i32`.
pub fn sum_of(values: &[i32]) -> (sum: Option<i32>)
    ensures
        sum is Some <==> prefix_sums_fit(values@),
        sum matches Some(s) ==> s == seq_sum(values@),
{
    let mut sum: i32 = 0;
    let mut x: usize = 0;
    proof {
        assert(values@.take(0) =~= Seq::<i32>::empty());
    }
    while x < values.len()
        invariant
            x <= values@.len(),
            sum == seq_sum(values@.take(x as int)),
            forall|k: int| 0 <= k <= x ==> i32::MIN <= #[trigger] seq_sum(values@.take(k)) <= i32::MAX,
        decreases values@.len() - x,
    {
        proof {
            assert(values@.take(x + 1).drop_last() =~= values@.take(x as int));
        }
        match sum.checked_add(values[x]) {
            Some(s) => {
                sum = s;
            },
            None => {
                proof {
                    assert(!(i32::MIN <= seq_sum(values@.take(x + 1)) <= i32::MAX));
                }
                return None;
            },
        }
        x = x + 1;
    }
    proof {
        assert(values@.take(values@.len() as int) =~= values@);
    }
    Some(sum)
}

/// The largest of `values`: one of them and none is larger; `None` when
/// there is none.
pub fn largest_of(values: &[i32]) -> (big: Option<i32>)
    ensures
        big is None <==> values@.len() == 0,
        big matches Some(b) ==> exists|i: int| 0 <= i < values@.len() && values@[i] == b,
        big matches Some(b) ==> forall|i: int| 0 <= i < values@.len() ==> values@[i] <= b,
{
    if values.len() == 0 {
        return None;
    }
    let mut big = values[0];
    let mut k: usize = 0;
    while k < values.len()
        invariant
            k <= values@.len(),
            exists|i: int| 0 <= i < values@.len() && values@[i] == big,
            forall|i: int| 0 <= i < k ==> values@[i] <= big,
        decreases values@.len() - k,
    {
        if big < values[k] {
            big = values[k];
        }
        k = k + 1;
    }
    Some(big)
}

/// How many guesses the search strategy makes from `guess` until it hits
/// `secret`, this guess included: on a guess too high it goes down by 2, on
/// a guess too low up by 1.
pub open spec fn attempts_from(guess: int, secret: int) -> int
    decreases (if guess > secret { guess - secret + 1 } else { secret - guess }),
{
    if guess == secret {
        1
    } else if guess > secret {
        1 + attempts_from(guess - 2, secret)
    } else {
        1 + attempts_from(guess + 1, secret)
    }
}

/// The same count in closed form: one guess when right at once; one per
/// step up from below; from above, one per step of 2 down, and one more
/// to climb back when the distance is odd.
pub open spec fn attempts_closed_form(guess: int, secret: int) -> int {
    if guess <= secret {
        1 + (secret - guess)
    } else if (guess - secret) % 2 == 0 {
        1 + (guess - secret) / 2
    } else {
        2 + (guess - secret + 1) / 2
    }
}

/// The search always ends on the secret, after the number of guesses given
/// by the closed form.
pub proof fn lemma_attempts_closed_form(guess: int, secret: int)
    ensures
        attempts_from(guess, secret) == attempts_closed_form(guess, secret),
        attempts_from(guess, secret) >= 1,
    decreases (if guess > secret { guess - secret + 1 } else { secret - guess }),
{
    if guess > secret {
        lemma_attempts_closed_form(guess - 2, secret);
    } else if guess < secret {
        lemma_attempts_closed_form(guess + 1, secret);
    }
}

/// The game played by its rules from `guess`: right at once takes one guess;
/// from below it climbs one by one, one guess per step; from above it drops
/// by two, one guess per drop, and when the distance is odd it overshoots by
/// one and needs one more guess to climb back.
pub proof fn lemma_attempts_count(guess: int, secret: int)
    ensures
        guess == secret ==> attempts_from(guess, secret) == 1,
        guess < secret ==> attempts_from(guess, secret) == secret - guess + 1,
        guess > secret && (guess - secret) % 2 == 0 ==> attempts_from(guess, secret)
            == 1 + (guess - secret) / 2,
        guess > secret && (guess - secret) % 2 == 1 ==> attempts_from(guess, secret)
            == 2 + (guess - secret + 1) / 2,
        attempts_from(guess, secret) == 1 <==> guess == secret,
        guess != secret ==> attempts_from(guess, secret) == 1 + attempts_from(
            if guess > secret { guess - 2 } else { guess + 1 },
            secret,
        ),
{
    lemma_attempts_closed_form(guess, secret);
}

/// The search stays within `i32` exactly when its guess count fits in an
/// `i32` and, from an odd distance above, the secret is above `i32::MIN`.
pub proof fn lemma_search_fits_exactly(guess: int, secret: int)
    ensures
        guess <= secret ==> (search_fits(guess, secret) <==> secret - guess + 1 <= i32::MAX),
        guess > secret && (guess - secret) % 2 == 0 ==> (search_fits(guess, secret)
            <==> 1 + (guess - secret) / 2 <= i32::MAX),
        guess > secret && (guess - secret) % 2 == 1 ==> (search_fits(guess, secret)
            <==> secret > i32::MIN && 2 + (guess - secret + 1) / 2 <= i32::MAX),
{
}

/// The search stays within `i32`: its guesses do not go below `i32::MIN`
/// and its count fits.
pub open spec fn search_fits(guess: int, secret: int) -> bool {
    &&& (guess > secret && (guess - secret) % 2 == 1 ==> secret > i32::MIN)
    &&& attempts_closed_form(guess, secret) <= i32::MAX
}

/// Plays the guessing game from `first_guess` against `secret` and returns
/// how many guesses it took: a guess too high is lowered by 2, one too low
/// raised by 1, until it is right. `None` when a guess or the count would
/// leave the range of `i32`.
pub fn attempts_needed(secret: i32, first_guess: i32) -> (tries: Option<i32>)
    ensures
        tries is Some <==> search_fits(first_guess as int, secret as int),
        tries matches Some(t) ==> t == attempts_from(first_guess as int, secret as int),
        tries matches Some(t) ==> t == attempts_closed_form(first_guess as int, secret as int),
        first_guess <= secret ==> (tries is Some <==> secret - first_guess + 1 <= i32::MAX),
        first_guess <= secret && tries is Some ==> tries == Some((secret - first_guess + 1) as i32),
        first_guess > secret && (first_guess - secret) % 2 == 0 ==> (tries is Some
            <==> 1 + (first_guess - secret) / 2 <= i32::MAX),
        first_guess > secret && (first_guess - secret) % 2 == 0 && tries is Some
            ==> tries == Some((1 + (first_guess - secret) / 2) as i32),
        first_guess > secret && (first_guess - secret) % 2 == 1 ==> (tries is Some
            <==> secret > i32::MIN && 2 + (first_guess - secret + 1) / 2 <= i32::MAX),
        first_guess > secret && (first_guess - secret) % 2 == 1 && tries is Some
            ==> tries == Some((2 + (first_guess - secret + 1) / 2) as i32),
{
    proof {
        lemma_attempts_closed_form(first_guess as int, secret as int);
    }
    let g = first_guess as i64;
    let s = secret as i64;
    let count: i64 = if g <= s {
        1 + (s - g)
    } else if (g - s) % 2 == 0 {
        1 + (g - s) / 2
    } else {
        2 + (g - s + 1) / 2
    };
    if count > i32::MAX as i64 || (g > s && (g - s) % 2 == 1 && secret == i32::MIN) {
        return None;
    }
    let mut guess = first_guess;
    let mut status = check_guess(guess, secret);
    let mut tries: i32 = 1;
    loop
        invariant
            tries >= 1,
            status == guess_result(guess as int, secret as int),
            tries - 1 + attempts_from(guess as int, secret as int)
                == attempts_from(first_guess as int, secret as int),
            attempts_from(first_guess as int, secret as int) <= i32::MAX,
            guess > secret && (guess - secret) % 2 == 1 ==> secret > i32::MIN,
        ensures
            tries == attempts_from(first_guess as int, secret as int),
        decreases (if guess > secret { guess - secret + 1 } else { secret - guess }),
    {
        if status == 0 {
            break;
        }
        proof {
            lemma_attempts_closed_form(guess as int, secret as int);
            if guess > secret {
                lemma_attempts_closed_form(guess - 2, secret as int);
            } else {
                lemma_attempts_closed_form(guess + 1, secret as int);
            }
        }
        if status == 1 {
            guess = guess - 2;
        }
        if status == -1 {
            guess = guess + 1;
        }
        status = check_guess(guess, secret);
        tries = tries + 1;
    }
    Some(tries)
}

} // verus!
