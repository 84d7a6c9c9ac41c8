//! Integer arithmetic of the voting rules: square roots, saturation and checked operations.

use vstd::prelude::*;

use crate::types::GovernanceError;

verus! {

/// `r` is the integer part of the square root of `n`.
pub open spec fn is_floor_sqrt(n: int, r: int) -> bool {
    0 <= r && r * r <= n < (r + 1) * (r + 1)
}

/// The integer part of the square root of `n`; zero where `n` is not positive.
pub open spec fn floor_sqrt(n: int) -> int {
    if n <= 0 {
        0
    } else {
        choose|r: int| is_floor_sqrt(n, r)
    }
}

/// The value nearest to `x` that an `i128` can hold.
pub open spec fn clamp_i128(x: int) -> int {
    if x > i128::MAX {
        i128::MAX as int
    } else if x < i128::MIN {
        i128::MIN as int
    } else {
        x
    }
}

/// Whether an `i128` can hold `x`.
pub open spec fn fits_i128(x: int) -> bool {
    i128::MIN <= x <= i128::MAX
}

/// The sum of the terms.
pub open spec fn total(terms: Seq<int>) -> int
    decreases terms.len(),
{
    if terms.len() == 0 {
        0
    } else {
        total(terms.drop_last()) + terms.last()
    }
}

/// The terms added up from the left, each partial sum held within an `i128`.
pub open spec fn saturating_total(terms: Seq<int>) -> int
    decreases terms.len(),
{
    if terms.len() == 0 {
        0
    } else {
        clamp_i128(saturating_total(terms.drop_last()) + terms.last())
    }
}

/// One step of the iteration keeps the guess above the root: the mean of `x` and `n / x`, rounded
/// down and increased by one, squares to more than `n`.
proof fn lemma_newton_step(n: int, x: int, q: int, y: int)
    requires
        n >= 0,
        x >= 1,
        q == n / x,
        y == (x + q) / 2,
    ensures
        n < (y + 1) * (y + 1),
{
    assert(n < x * (q + 1)) by (nonlinear_arith)
        requires
            n >= 0,
            x >= 1,
            q == n / x,
    ;
    let s = x + q + 1;
    assert(2 * (y + 1) >= s);
    assert(q >= 0) by (nonlinear_arith)
        requires
            n >= 0,
            x >= 1,
            q == n / x,
    ;
    assert(s * s >= 4 * (x * (q + 1))) by (nonlinear_arith)
        requires
            s == x + (q + 1),
    ;
    assert((2 * (y + 1)) * (2 * (y + 1)) >= s * s) by (nonlinear_arith)
        requires
            2 * (y + 1) >= s,
            s >= 0,
    ;
    assert((2 * (y + 1)) * (2 * (y + 1)) == 4 * ((y + 1) * (y + 1))) by (nonlinear_arith);
}

/// The sum of a guess and its quotient stays within a `u128`.
proof fn lemma_newton_sum_fits(n: int, x: int, q: int)
    requires
        0 <= n <= u128::MAX,
        1 <= x <= 0x8000_0000_0000_0000_0000_0000_0000_0000,
        q == n / x,
        n < (x + 1) * (x + 1),
    ensures
        0 <= x + q <= u128::MAX,
{
    assert(q >= 0 && q * x <= n) by (nonlinear_arith)
        requires
            n >= 0,
            x >= 1,
            q == n / x,
    ;
    if x <= 0x2000_0000_0000_0000_0000_0000_0000_0000 {
        assert(q <= x + 2) by (nonlinear_arith)
            requires
                q * x <= n,
                n < (x + 1) * (x + 1),
                x >= 1,
        ;
    } else {
        assert(q <= 8) by (nonlinear_arith)
            requires
                q * x <= n,
                n <= u128::MAX,
                x > 0x2000_0000_0000_0000_0000_0000_0000_0000,
        ;
    }
}

/// Floor of the square root of `n`, by Newton's iteration from above.
///
/// The first guess is `n` and the first mean is taken as `n - n / 2`, so that no intermediate value
/// leaves `u128` even at `u128::MAX`.
pub fn isqrt_u128(n: u128) -> (root: u128)
    ensures
        is_floor_sqrt(n as int, root as int),
{
    if n == 0 {
        assert(is_floor_sqrt(0, 0)) by (nonlinear_arith);
        return 0;
    }
    let mut x: u128 = n;
    let mut y: u128 = x - x / 2;
    proof {
        assert(n < (n + 1) * (n + 1)) by (nonlinear_arith);
        let h = n - n / 2;
        assert(n < (h + 1) * (h + 1)) by (nonlinear_arith)
            requires
                n >= 1,
                2 * h >= n,
        ;
    }
    while y < x
        invariant
            1 <= n,
            1 <= x <= n,
            1 <= y,
            y < x ==> y <= 0x8000_0000_0000_0000_0000_0000_0000_0000,
            n < (x + 1) * (x + 1),
            n < (y + 1) * (y + 1),
            y >= x ==> x * x <= n,
        decreases x,
    {
        x = y;
        proof {
            lemma_newton_sum_fits(n as int, x as int, (n / x) as int);
            lemma_newton_step(n as int, x as int, (n / x) as int, ((x + n / x) / 2) as int);
        }
        y = (x + n / x) / 2;
        proof {
            let q = (n / x) as int;
            if y >= x {
                assert(q >= x);
                assert(x * x <= n) by (nonlinear_arith)
                    requires
                        x >= 1,
                        q >= x,
                        q == n / x,
                ;
            }
            assert(y >= 1) by (nonlinear_arith)
                requires
                    n >= 1,
                    n < (y + 1) * (y + 1),
                    y >= 0,
            ;
        }
    }
    x
}

/// Floor of the square root of a balance; a balance that is not positive has the root zero.
pub fn isqrt(n: i128) -> (root: i128)
    ensures
        root == floor_sqrt(n as int),
        n > 0 ==> is_floor_sqrt(n as int, root as int),
{
    if n <= 0 {
        return 0;
    }
    let root: u128 = isqrt_u128(n as u128);
    proof {
        floor_sqrt_is_unique(n as int, root as int);
        assert(root <= n) by (nonlinear_arith)
            requires
                root * root <= n,
        ;
    }
    root as i128
}

/// Every number has at most one floor square root, and `floor_sqrt` is it.
pub proof fn floor_sqrt_is_unique(n: int, r: int)
    requires
        n > 0,
        is_floor_sqrt(n, r),
    ensures
        floor_sqrt(n) == r,
{
    let c = floor_sqrt(n);
    assert(is_floor_sqrt(n, c));
    assert(c == r) by (nonlinear_arith)
        requires
            0 <= r,
            0 <= c,
            r * r <= n < (r + 1) * (r + 1),
            c * c <= n < (c + 1) * (c + 1),
    ;
}

/// Every number has a floor square root, and `floor_sqrt` is it.
pub proof fn floor_sqrt_exists(n: int)
    requires
        n >= 0,
    ensures
        is_floor_sqrt(n, floor_sqrt(n)),
    decreases n,
{
    if n == 0 {
        assert(is_floor_sqrt(0, 0)) by (nonlinear_arith);
    } else {
        floor_sqrt_exists(n - 1);
        let p = floor_sqrt(n - 1);
        if n < (p + 1) * (p + 1) {
            assert(is_floor_sqrt(n, p));
        } else {
            assert(is_floor_sqrt(n, p + 1)) by (nonlinear_arith)
                requires
                    0 <= p,
                    n - 1 < (p + 1) * (p + 1),
                    (p + 1) * (p + 1) <= n,
            ;
        }
    }
}

/// A positive balance carries a positive quadratic weight, which is at most the balance.
pub proof fn quadratic_weight_is_positive_and_bounded(n: int)
    requires
        n > 0,
    ensures
        1 <= floor_sqrt(n) <= n,
{
    floor_sqrt_exists(n);
    let r = floor_sqrt(n);
    assert(1 <= r <= n) by (nonlinear_arith)
        requires
            n > 0,
            0 <= r,
            r * r <= n < (r + 1) * (r + 1),
    ;
}

/// A larger balance never carries a smaller quadratic weight.
pub proof fn floor_sqrt_is_monotone(m: int, n: int)
    requires
        m <= n,
    ensures
        floor_sqrt(m) <= floor_sqrt(n),
{
    if m > 0 {
        floor_sqrt_exists(m);
        floor_sqrt_exists(n);
        let a = floor_sqrt(m);
        let b = floor_sqrt(n);
        assert(a <= b) by (nonlinear_arith)
            requires
                m <= n,
                0 <= a,
                0 <= b,
                a * a <= m,
                n < (b + 1) * (b + 1),
        ;
    } else if n > 0 {
        floor_sqrt_exists(n);
    }
}

/// The sum, held within an `i128`.
pub fn saturating_add(a: i128, b: i128) -> (sum: i128)
    ensures
        sum == clamp_i128(a + b),
{
    match a.checked_add(b) {
        Some(sum) => sum,
        None => if b > 0 {
            i128::MAX
        } else {
            i128::MIN
        },
    }
}

/// The product, held within an `i128`.
pub fn saturating_mul(a: i128, b: i128) -> (product: i128)
    ensures
        product == clamp_i128(a * b),
{
    match a.checked_mul(b) {
        Some(product) => product,
        None => {
            proof {
                assert((a > 0 && b > 0) ==> a * b > 0) by (nonlinear_arith);
                assert((a < 0 && b < 0) ==> a * b > 0) by (nonlinear_arith);
                assert((a >= 0 && b <= 0) ==> a * b <= 0) by (nonlinear_arith);
                assert((a <= 0 && b >= 0) ==> a * b <= 0) by (nonlinear_arith);
            }
            if (a > 0) == (b > 0) {
                i128::MAX
            } else {
                i128::MIN
            }
        },
    }
}

/// The sum, or `ArithmeticOverflow` where an `i128` cannot hold it.
pub fn checked_add(a: i128, b: i128) -> (sum: Result<i128, GovernanceError>)
    ensures
        sum == if fits_i128(a + b) {
            Ok::<i128, GovernanceError>((a + b) as i128)
        } else {
            Err(GovernanceError::ArithmeticOverflow)
        },
{
    match a.checked_add(b) {
        Some(sum) => Ok(sum),
        None => Err(GovernanceError::ArithmeticOverflow),
    }
}

/// The difference, or `ArithmeticOverflow` where an `i128` cannot hold it.
pub fn checked_sub(a: i128, b: i128) -> (difference: Result<i128, GovernanceError>)
    ensures
        difference == if fits_i128(a - b) {
            Ok::<i128, GovernanceError>((a - b) as i128)
        } else {
            Err(GovernanceError::ArithmeticOverflow)
        },
{
    match a.checked_sub(b) {
        Some(difference) => Ok(difference),
        None => Err(GovernanceError::ArithmeticOverflow),
    }
}

/// The product, or `ArithmeticOverflow` where an `i128` cannot hold it.
pub fn checked_mul(a: i128, b: i128) -> (product: Result<i128, GovernanceError>)
    ensures
        product == if fits_i128(a * b) {
            Ok::<i128, GovernanceError>((a * b) as i128)
        } else {
            Err(GovernanceError::ArithmeticOverflow)
        },
{
    match a.checked_mul(b) {
        Some(product) => Ok(product),
        None => Err(GovernanceError::ArithmeticOverflow),
    }
}

/// Where no term is negative, saturation on the way changes nothing but the end result: the
/// saturating sum is the sum, held within an `i128`.
pub proof fn saturating_total_of_nonnegative_terms(terms: Seq<int>)
    requires
        forall|i: int| 0 <= i < terms.len() ==> terms[i] >= 0,
    ensures
        total(terms) >= 0,
        saturating_total(terms) == clamp_i128(total(terms)),
    decreases terms.len(),
{
    if terms.len() > 0 {
        saturating_total_of_nonnegative_terms(terms.drop_last());
    }
}

/// One more term.
pub proof fn total_of_one_more(terms: Seq<int>, x: int)
    ensures
        total(terms.push(x)) == total(terms) + x,
        saturating_total(terms.push(x)) == clamp_i128(saturating_total(terms) + x),
{
    assert(terms.push(x).drop_last() =~= terms);
}

/// One term changed.
pub proof fn total_with_a_change(terms: Seq<int>, i: int, x: int)
    requires
        0 <= i < terms.len(),
    ensures
        total(terms.update(i, x)) == total(terms) - terms[i] + x,
    decreases terms.len(),
{
    if i == terms.len() - 1 {
        assert(terms.update(i, x).drop_last() =~= terms.drop_last());
    } else {
        total_with_a_change(terms.drop_last(), i, x);
        assert(terms.update(i, x).drop_last() =~= terms.drop_last().update(i, x));
    }
}

/// One term taken out.
pub proof fn total_without_one(terms: Seq<int>, i: int)
    requires
        0 <= i < terms.len(),
    ensures
        total(terms.remove(i)) == total(terms) - terms[i],
    decreases terms.len(),
{
    if i == terms.len() - 1 {
        assert(terms.remove(i) =~= terms.drop_last());
    } else {
        total_without_one(terms.drop_last(), i);
        assert(terms.remove(i).drop_last() =~= terms.drop_last().remove(i));
    }
}

} // verus!
