//! Greatest common divisor by the Euclidean algorithm.

use vstd::prelude::*;

verus! {

use vstd::arithmetic::div_mod::lemma_div_pos_is_pos;
use vstd::arithmetic::div_mod::lemma_fundamental_div_mod;
use vstd::arithmetic::div_mod::lemma_small_mod;

/// `d` divides `n`: some natural multiple of `d` equals `n`.
pub open spec fn divides(d: nat, n: nat) -> bool {
    exists|k: nat| n == #[trigger] (k * d)
}

/// The greatest common divisor, defined by the Euclidean recurrence:
/// `gcd(a, 0) == a`, and otherwise `gcd(a, b) == gcd(b, a % b)`.
pub open spec fn gcd_spec(a: nat, b: nat) -> nat
    decreases b,
{
    if b == 0 {
        a
    } else {
        gcd_spec(b, a % b)
    }
}

/// Computes the greatest common divisor of `a` and `b` by repeated
/// remainder.
pub fn gcd(a: u64, b: u64) -> (g: u64)
    ensures
        g == gcd_spec(a as nat, b as nat),
{
    let mut x = a;
    let mut y = b;
    while y != 0
        invariant
            gcd_spec(x as nat, y as nat) == gcd_spec(a as nat, b as nat),
        decreases y,
    {
        let temp = y;
        y = x % y;
        x = temp;
    }
    x
}

/// The greatest common divisor with zero is the other argument:
/// `gcd(a, 0) == a`.
pub proof fn lemma_gcd_zero(a: nat)
    ensures
        gcd_spec(a, 0) == a,
{
}

/// The greatest common divisor is symmetric in its arguments.
pub proof fn lemma_gcd_symmetric(a: nat, b: nat)
    ensures
        gcd_spec(a, b) == gcd_spec(b, a),
{
    if a < b {
        lemma_small_mod(a, b);
        assert(gcd_spec(a, b) == gcd_spec(b, a % b));
    } else if b < a {
        lemma_small_mod(b, a);
        assert(gcd_spec(b, a) == gcd_spec(a, b % a));
    }
}

/// The greatest common divisor divides both of its arguments.
pub proof fn lemma_gcd_divides_both(a: nat, b: nat)
    ensures
        divides(gcd_spec(a, b), a),
        divides(gcd_spec(a, b), b),
    decreases b,
{
    if b == 0 {
        assert(a == 1 * a);
        assert(0 == 0 * a);
    } else {
        lemma_gcd_divides_both(b, a % b);
        let g = gcd_spec(b, a % b);
        let k1 = choose|k: nat| b == #[trigger] (k * g);
        let k2 = choose|k: nat| a % b == #[trigger] (k * g);
        lemma_fundamental_div_mod(a as int, b as int);
        let q = a as int / b as int;
        lemma_div_pos_is_pos(a as int, b as int);
        assert(a as int == (k1 as int * q + k2 as int) * g as int) by (nonlinear_arith)
            requires
                a as int == b as int * q + (a % b) as int,
                b as int == k1 as int * g as int,
                (a % b) as int == k2 as int * g as int,
        ;
        let c = (k1 as int * q + k2 as int) as nat;
        assert(a == c * g);
    }
}

/// Every common divisor of `a` and `b` divides their greatest common
/// divisor; together with `lemma_gcd_divides_both` this shows that
/// `gcd_spec` really is the greatest of the common divisors.
pub proof fn lemma_gcd_greatest(a: nat, b: nat, d: nat)
    requires
        divides(d, a),
        divides(d, b),
    ensures
        divides(d, gcd_spec(a, b)),
    decreases b,
{
    if b != 0 {
        let k1 = choose|k: nat| a == #[trigger] (k * d);
        let k2 = choose|k: nat| b == #[trigger] (k * d);
        if d == 0 {
            assert(b == k2 * 0);
        } else {
            lemma_fundamental_div_mod(a as int, b as int);
            let q = a as int / b as int;
            let c = k1 as int - k2 as int * q;
            assert((a % b) as int == c * d as int) by (nonlinear_arith)
                requires
                    c == k1 as int - k2 as int * q,
                    a as int == b as int * q + (a % b) as int,
                    a as int == k1 as int * d as int,
                    b as int == k2 as int * d as int,
            ;
            assert(c >= 0) by (nonlinear_arith)
                requires
                    (a % b) as int == c * d as int,
                    (a % b) as int >= 0,
                    d as int > 0,
            ;
            assert(a % b == (c as nat) * d);
            lemma_gcd_greatest(b, a % b, d);
        }
    }
}

} // verus!
