//! Whether a whole number is prime.

use vstd::prelude::*;

verus! {

/// `d` divides `n`.
pub open spec fn divides(d: int, n: int) -> bool {
    d != 0 && n % d == 0
}

/// `n` is prime: at least 2, and divided by nothing between 1 and itself.
pub open spec fn prime(n: int) -> bool {
    n >= 2 && forall|d: int| 2 <= d < n ==> !#[trigger] divides(d, n)
}

proof fn lemma_even_divisor(d: int, n: int)
    requires
        d > 0,
        d % 2 == 0,
        divides(d, n),
    ensures
        n % 2 == 0,
{
    let half = d / 2;
    let times = n / d;
    assert(n == d * times) by (nonlinear_arith)
        requires
            d > 0,
            n % d == 0,
            times == n / d,
    ;
    assert(n == 2 * (half * times)) by (nonlinear_arith)
        requires
            n == d * times,
            d == 2 * half,
    ;
}

proof fn lemma_cofactor(d: int, n: int)
    requires
        2 <= d < n,
        divides(d, n),
    ensures
        2 <= n / d < n,
        divides(n / d, n),
        n == d * (n / d),
{
    let q = n / d;
    assert(n == d * q) by (nonlinear_arith)
        requires
            d > 0,
            n % d == 0,
            q == n / d,
    ;
    assert(2 <= q < n) by (nonlinear_arith)
        requires
            n == d * q,
            2 <= d < n,
    ;
    assert(n % q == 0) by (nonlinear_arith)
        requires
            n == d * q,
            q > 0,
    ;
}

proof fn lemma_small_cofactor(d: int, i: int, n: int)
    requires
        3 <= i <= d,
        n >= 0,
        n / i < i,
    ensures
        n / d < i,
{
    assert(n / d <= n / i) by (nonlinear_arith)
        requires
            0 < i <= d,
            n >= 0,
    ;
}

/// Whether `n` is prime.
pub fn is_prime(n: i64) -> (yes: bool)
    ensures
        yes == prime(n as int),
{
    if n < 2 {
        return false;
    }
    if n == 2 {
        return true;
    }
    if n % 2 == 0 {
        assert(divides(2, n as int));
        return false;
    }
    let mut i: i64 = 3;
    while i <= n / i
        invariant
            3 <= i <= n,
            i % 2 == 1,
            n % 2 == 1,
            forall|d: int| 2 <= d < i ==> !#[trigger] divides(d, n as int),
        decreases n - i,
    {
        assert(i * 3 <= n) by (nonlinear_arith)
            requires
                3 <= i <= n / i,
        ;
        if n % i == 0 {
            assert(divides(i as int, n as int));
            return false;
        }
        proof {
            if divides(i + 1, n as int) {
                lemma_even_divisor(i + 1, n as int);
            }
        }
        i += 2;
    }
    proof {
        assert forall|d: int| 2 <= d < n implies !#[trigger] divides(d, n as int) by {
            if d >= i && divides(d, n as int) {
                lemma_cofactor(d, n as int);
                lemma_small_cofactor(d, i as int, n as int);
                assert(divides(n as int / d, n as int));
            }
        }
    }
    true
}

} // verus!
