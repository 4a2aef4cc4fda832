//! Factorials, computed recursively and iteratively, both proved
//! equal to the same mathematical definition.

use vstd::prelude::*;

verus! {

/// The factorial of `n`, with `factorial_spec(0) == factorial_spec(1) == 1`.
pub open spec fn factorial_spec(n: nat) -> nat
    decreases n,
{
    if n <= 1 {
        1
    } else {
        n * factorial_spec((n - 1) as nat)
    }
}

/// The factorial function is monotonic.
pub proof fn lemma_factorial_monotonic(i: nat, j: nat)
    requires
        i <= j,
    ensures
        factorial_spec(i) <= factorial_spec(j),
    decreases j,
{
    if i < j && j > 1 {
        lemma_factorial_monotonic(i, (j - 1) as nat);
        assert(j * factorial_spec((j - 1) as nat) >= factorial_spec((j - 1) as nat))
            by (nonlinear_arith)
            requires
                j >= 1,
                factorial_spec((j - 1) as nat) >= 0,
        ;
    }
}

/// The factorial of every `n` up to 20 fits in a `u64`; 20 is the
/// largest input for which it does, since `21!` exceeds `u64::MAX`.
pub proof fn lemma_factorial_fits_u64(n: nat)
    requires
        n <= 20,
    ensures
        factorial_spec(n) <= u64::MAX,
{
    lemma_factorial_monotonic(n, 20);
    assert(factorial_spec(20) == 2432902008176640000) by {
        reveal_with_fuel(factorial_spec, 21);
    }
}

/// Computes `n!` recursively. Inputs above 20 are excluded: their
/// factorial does not fit in a `u64`.
pub fn factorial(n: u64) -> (r: u64)
    requires
        n <= 20,
    ensures
        r == factorial_spec(n as nat),
    decreases n,
{
    if n <= 1 {
        1
    } else {
        let rest = factorial(n - 1);
        proof {
            lemma_factorial_fits_u64(n as nat);
        }
        n * rest
    }
}

/// Computes `n!` by an accumulating product over `1..=n`; returns the
/// same value as the recursive `factorial` on every allowed input.
pub fn factorial_iterative(n: u64) -> (r: u64)
    requires
        n <= 20,
    ensures
        r == factorial_spec(n as nat),
{
    let mut product: u64 = 1;
    let mut i: u64 = 1;
    while i <= n
        invariant
            n <= 20,
            1 <= i <= n + 1,
            product == factorial_spec((i - 1) as nat),
        decreases n + 1 - i,
    {
        proof {
            lemma_factorial_fits_u64(i as nat);
            if i == 1 {
                assert(i as int * product as int == factorial_spec(1)) by (nonlinear_arith)
                    requires
                        i == 1,
                        product == 1,
                        factorial_spec(1) == 1,
                ;
            } else {
                assert(factorial_spec(i as nat) == i as nat * factorial_spec((i - 1) as nat));
            }
        }
        product = i * product;
        i = i + 1;
    }
    product
}

} // verus!
