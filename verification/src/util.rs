//! Small standalone routines: sample data checks, bounded arithmetic and
//! string comparison.

use vstd::arithmetic::div_mod::lemma_div_is_ordered;
use vstd::arithmetic::div_mod::lemma_div_is_ordered_by_denominator;
use vstd::arithmetic::div_mod::lemma_div_nonincreasing;
use vstd::arithmetic::div_mod::lemma_div_of0;
use vstd::prelude::*;
use vstd::string::StringSliceAdditionalSpecFns;

verus! {

/// Truncating division of `a` by `b`: the quotient of the magnitudes,
/// carrying the combined sign.
pub open spec fn trunc_div(a: int, b: int) -> int {
    if a == 0 {
        0
    } else if a > 0 && b > 0 {
        a / b
    } else if a < 0 && b < 0 {
        (a * -1) / (b * -1)
    } else if a < 0 {
        ((a * -1) / b) * -1
    } else {
        (a / (b * -1)) * -1
    }
}

/// The truncating quotient of two 32-bit values stays representable, except
/// for the smallest value divided by minus one.
proof fn lemma_trunc_div_in_range(x: int, d: int)
    requires
        i32::MIN <= x <= i32::MAX,
        i32::MIN <= d <= i32::MAX,
        d != 0,
        !(x == i32::MIN && d == -1),
    ensures
        i32::MIN <= trunc_div(x, d) <= i32::MAX,
{
    if x == 0 {
    } else if x > 0 && d > 0 {
        lemma_div_of0(d);
        lemma_div_is_ordered(0, x, d);
        lemma_div_nonincreasing(x, d);
    } else if x < 0 && d < 0 {
        lemma_div_of0(d * -1);
        lemma_div_is_ordered(0, x * -1, d * -1);
        if d == -1 {
            lemma_div_nonincreasing(x * -1, 1);
        } else {
            lemma_div_is_ordered_by_denominator(x * -1, 2, d * -1);
            lemma_div_is_ordered(x * -1, 2147483648, 2);
            assert(2147483648int / 2 == 1073741824);
        }
    } else if x < 0 {
        lemma_div_of0(d);
        lemma_div_is_ordered(0, x * -1, d);
        lemma_div_nonincreasing(x * -1, d);
    } else {
        lemma_div_of0(d * -1);
        lemma_div_is_ordered(0, x, d * -1);
        lemma_div_nonincreasing(x, d * -1);
    }
}

/// Divides `a` by `b`, truncating toward zero. The divisor must not be zero
/// and the quotient must be representable.
pub fn divide(a: i32, b: i32) -> (r: i32)
    requires
        b != 0,
        !(a == i32::MIN && b == -1),
    ensures
        r == trunc_div(a as int, b as int),
{
    proof {
        lemma_trunc_div_in_range(a as int, b as int);
    }
    match a.checked_div(b) {
        Some(q) => q,
        None => 0,
    }
}

/// Reads the first element of the sample data set, requiring at least ten
/// elements; the set holds five, so nothing is returned.
pub fn process_data() -> (r: Option<i32>)
    ensures
        r is None,
{
    let data: Vec<i32> = vec![1, 2, 3, 4, 5];
    if data.len() < 10 {
        None
    } else {
        Some(data[0])
    }
}

/// The longer of two strings, the second on a tie; lengths count bytes.
pub fn compare_strings<'a>(s1: &'a str, s2: &'a str) -> (r: &'a str)
    ensures
        s1.len() > s2.len() ==> r@ == s1@,
        s1.len() <= s2.len() ==> r@ == s2@,
{
    if s1.len() > s2.len() {
        s1
    } else {
        s2
    }
}

/// The factorial of `n`.
pub open spec fn spec_factorial(n: nat) -> nat
    decreases n,
{
    if n == 0 {
        1
    } else {
        n * spec_factorial((n - 1) as nat)
    }
}

/// The factorial is at least one.
proof fn lemma_factorial_pos(n: nat)
    ensures
        spec_factorial(n) >= 1,
    decreases n,
{
    if n > 0 {
        lemma_factorial_pos((n - 1) as nat);
        assert(n * spec_factorial((n - 1) as nat) >= spec_factorial((n - 1) as nat))
            by (nonlinear_arith)
            requires
                n >= 1,
                spec_factorial((n - 1) as nat) >= 1,
        ;
    }
}

/// The factorial grows monotonically.
proof fn lemma_factorial_mono(m: nat, n: nat)
    requires
        m <= n,
    ensures
        spec_factorial(m) <= spec_factorial(n),
    decreases n,
{
    if m < n {
        lemma_factorial_mono(m, (n - 1) as nat);
        lemma_factorial_pos((n - 1) as nat);
        assert(n * spec_factorial((n - 1) as nat) >= spec_factorial((n - 1) as nat))
            by (nonlinear_arith)
            requires
                n >= 1,
                spec_factorial((n - 1) as nat) >= 1,
        ;
    }
}

/// The largest factorial a 64-bit value can hold is that of twenty.
proof fn lemma_factorial_20_fits()
    ensures
        spec_factorial(20) == 2432902008176640000,
{
    reveal_with_fuel(spec_factorial, 21);
}

/// The factorial of `n`, for the arguments whose factorial a 64-bit value
/// can hold.
pub fn factorial(n: u64) -> (r: u64)
    requires
        n <= 20,
    ensures
        r == spec_factorial(n as nat),
    decreases n,
{
    if n == 0 {
        1
    } else {
        proof {
            lemma_factorial_mono(n as nat, 20);
            lemma_factorial_20_fits();
        }
        n * factorial(n - 1)
    }
}

/// Adds the two sample bytes, whose sum does not fit an 8-bit value, so
/// nothing is returned.
pub fn calculate_sum() -> (r: Option<u8>)
    ensures
        r is None,
{
    let a: u8 = 200;
    let b: u8 = 100;
    a.checked_add(b)
}

} // verus!
