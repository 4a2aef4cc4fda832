//! Primality testing by trial division over odd candidates up to the
//! square root.

use vstd::prelude::*;

verus! {

use vstd::arithmetic::div_mod::lemma_fundamental_div_mod;
use vstd::arithmetic::div_mod::lemma_mod_multiples_basic;

/// `n` is prime: it is at least 2 and no smaller number above 1
/// divides it.
pub open spec fn is_prime_spec(n: nat) -> bool {
    &&& n >= 2
    &&& forall|d: nat| 2 <= d < n ==> #[trigger] (n % d) != 0
}

/// A multiple of an even number is itself even.
proof fn lemma_even_divisor(n: nat, e: nat)
    requires
        e >= 2,
        e % 2 == 0,
        n % e == 0,
    ensures
        n % 2 == 0,
{
    lemma_fundamental_div_mod(n as int, e as int);
    lemma_fundamental_div_mod(e as int, 2);
    let q = n as int / e as int;
    let h = e as int / 2;
    assert(n as int == (h * q) * 2) by (nonlinear_arith)
        requires
            n as int == e as int * q,
            e as int == 2 * h,
    ;
    lemma_mod_multiples_basic(h * q, 2);
}

/// If no number in `[2, bound)` divides `n` and `bound * bound`
/// exceeds `n`, then no number in `[2, n)` divides `n`: a composite
/// number always has a divisor no larger than its square root.
proof fn lemma_no_small_divisor_no_divisor(n: nat, bound: nat)
    requires
        n >= 2,
        bound >= 2,
        bound * bound > n,
        forall|d: nat| 2 <= d < bound ==> #[trigger] (n % d) != 0,
    ensures
        forall|d: nat| 2 <= d < n ==> #[trigger] (n % d) != 0,
{
    assert forall|d: nat| 2 <= d < n implies #[trigger] (n % d) != 0 by {
        if d >= bound && n % d == 0 {
            lemma_fundamental_div_mod(n as int, d as int);
            let q = n as int / d as int;
            assert(n as int == d as int * q);
            assert(2 <= q && q < bound) by (nonlinear_arith)
                requires
                    n as int == d as int * q,
                    d < n,
                    n >= 2,
                    d as int >= bound as int,
                    bound >= 2,
                    n < bound * bound,
            ;
            lemma_mod_multiples_basic(d as int, q);
            assert(n as int % q == 0);
            assert(n % (q as nat) != 0);
        }
    }
}

/// Decides whether `n` is prime by trial division: after ruling out
/// numbers below 2, the number 2 itself, and the remaining even
/// numbers, it tests odd divisors from 3 as long as their square does
/// not exceed `n`.
pub fn is_prime(n: u64) -> (r: bool)
    ensures
        r == is_prime_spec(n as nat),
{
    if n < 2 {
        return false;
    }
    if n == 2 {
        return true;
    }
    if n % 2 == 0 {
        assert(!is_prime_spec(n as nat)) by {
            assert(n as nat % 2 == 0);
        }
        return false;
    }
    let mut i: u64 = 3;
    while i <= n / i
        invariant
            3 <= i <= n + 2,
            i % 2 == 1,
            n >= 3,
            n % 2 != 0,
            forall|d: nat| 2 <= d < i ==> #[trigger] ((n as nat) % d) != 0,
        decreases n + 2 - i,
    {
        proof {
            lemma_fundamental_div_mod(n as int, i as int);
            assert(i as int * i as int <= n as int) by (nonlinear_arith)
                requires
                    n as int == i as int * (n as int / i as int) + n as int % i as int,
                    0 <= n as int % i as int,
                    i as int <= n as int / i as int,
                    i >= 3,
            ;
            assert(i < n) by (nonlinear_arith)
                requires
                    i >= 3,
                    i as int * i as int <= n as int,
            ;
        }
        if n % i == 0 {
            assert(!is_prime_spec(n as nat)) by {
                assert((n as nat) % (i as nat) == 0);
            }
            return false;
        }
        proof {
            if (n as nat) % ((i + 1) as nat) == 0 {
                lemma_even_divisor(n as nat, (i + 1) as nat);
            }
        }
        i = i + 2;
    }
    proof {
        lemma_fundamental_div_mod(n as int, i as int);
        assert(i as int * i as int > n as int) by (nonlinear_arith)
            requires
                n as int == i as int * (n as int / i as int) + n as int % i as int,
                (n as int % i as int) < i as int,
                (n as int / i as int) < i as int,
                i >= 3,
        ;
        lemma_no_small_divisor_no_divisor(n as nat, i as nat);
    }
    true
}

} // verus!
